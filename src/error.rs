use vstd::prelude::*;

verus! {

/// The one failure of decoding: the input does not split evenly into
/// scalars, or the scalars do not split evenly into points.
#[derive(Debug, Clone, Copy, PartialEq, Eq, Structural)]
pub enum ClusterError {
    UnexpectedEndOfInput,
}

impl ClusterError {
    /// The message shown to the host for this error.
    pub fn message(&self) -> (r: &'static str)
        ensures
            r@ == "unexpected end of input"@,
    {
        match self {
            ClusterError::UnexpectedEndOfInput => "unexpected end of input",
        }
    }
}

} // verus!
