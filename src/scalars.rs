use vstd::prelude::*;

use crate::error::ClusterError;

verus! {

/// The scalars held by `bytes`: consecutive groups of four bytes, one
/// IEEE-754 single-precision value each. A trailing group of fewer than four
/// bytes is not a scalar.
pub open spec fn scalars_of(bytes: Seq<u8>) -> Seq<Seq<u8>> {
    Seq::new(bytes.len() / 4, |i: int| bytes.subrange(4 * i, 4 * i + 4))
}

/// A borrowed view of a byte buffer as a sequence of scalars. The buffer's
/// length is always a whole number of scalars; nothing is copied.
pub struct Scalars<'a> {
    bytes: &'a [u8],
}

impl<'a> View for Scalars<'a> {
    type V = Seq<Seq<u8>>;

    open spec fn view(&self) -> Seq<Seq<u8>> {
        scalars_of(self.raw())
    }
}

impl<'a> Scalars<'a> {
    #[verifier::type_invariant]
    spec fn whole_scalars(self) -> bool {
        self.bytes@.len() % 4 == 0
    }

    /// The bytes under the view.
    pub closed spec fn raw(self) -> Seq<u8> {
        self.bytes@
    }

    /// Number of scalars in the view.
    pub fn len(&self) -> (r: usize)
        ensures
            r == self@.len(),
    {
        self.bytes.len() / 4
    }

    /// The four bytes of scalar `i`.
    pub fn get(&self, i: usize) -> (r: [u8; 4])
        requires
            i < self@.len(),
        ensures
            r@ == self@[i as int],
    {
        let n = self.bytes.len();
        proof {
            use_type_invariant(self);
            assert(4 * i + 4 <= n) by (nonlinear_arith)
                requires
                    i < n / 4,
            ;
        }
        let at = 4 * i;
        let r = [self.bytes[at], self.bytes[at + 1], self.bytes[at + 2], self.bytes[at + 3]];
        assert(r@ =~= self@[i as int]);
        r
    }

    /// The scalars `start..end` of this view, borrowed from the same buffer.
    pub fn sub_view(&self, start: usize, end: usize) -> (r: Scalars<'a>)
        requires
            start <= end <= self@.len(),
        ensures
            r@ == self@.subrange(start as int, end as int),
    {
        let n = self.bytes.len();
        proof {
            use_type_invariant(self);
            assert(4 * end <= n) by (nonlinear_arith)
                requires
                    end <= n / 4,
            ;
        }
        let bytes = &self.bytes[4 * start..4 * end];
        let r = Scalars { bytes };
        assert forall|i: int| 0 <= i < end - start implies #[trigger] r@[i] =~= self@[start + i] by {
            assert(r@[i] =~= self.bytes@.subrange(4 * (start + i), 4 * (start + i) + 4));
        }
        assert(r@ =~= self@.subrange(start as int, end as int));
        r
    }
}

/// Views `arr` as scalars. Fails when its length is not a whole number of
/// scalars.
pub fn byte_array_as_scalar_type(arr: &[u8]) -> (r: Result<Scalars<'_>, ClusterError>)
    ensures
        match r {
            Ok(s) => arr@.len() % 4 == 0 && s@ == scalars_of(arr@) && s.raw() == arr@,
            Err(e) => arr@.len() % 4 != 0 && e == ClusterError::UnexpectedEndOfInput,
        },
{
    if arr.len() % 4 != 0 {
        return Err(ClusterError::UnexpectedEndOfInput);
    }
    Ok(Scalars { bytes: arr })
}

} // verus!
