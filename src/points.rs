use vstd::prelude::*;

use crate::error::ClusterError;
use crate::scalars::{byte_array_as_scalar_type, scalars_of, Scalars};

verus! {

/// The points that `bytes` holds at `d` scalars each, in order; `None` where
/// the bytes are not a whole number of scalars, `d` is zero, or the scalars
/// are not a whole number of points. Point `i` is scalars `i*d .. (i+1)*d`.
pub open spec fn decoded_points(bytes: Seq<u8>, d: nat) -> Option<Seq<Seq<Seq<u8>>>> {
    let s = scalars_of(bytes);
    if bytes.len() % 4 != 0 || d == 0 || s.len() % d != 0 {
        None
    } else {
        Some(Seq::new(s.len() / d, |i: int| s.subrange(i * d, i * d + d)))
    }
}

/// A point whose dimension count `N` is fixed at compile time. It borrows its
/// `N` scalars from the decoded buffer.
pub struct DataPoint<'a, const N: usize> {
    data: Scalars<'a>,
}

impl<'a, const N: usize> View for DataPoint<'a, N> {
    type V = Seq<Seq<u8>>;

    /// The point's coordinates, each as the four bytes of its scalar.
    closed spec fn view(&self) -> Seq<Seq<u8>> {
        self.data@
    }
}

impl<'a, const N: usize> DataPoint<'a, N> {
    #[verifier::type_invariant]
    spec fn has_n_coordinates(self) -> bool {
        self.data@.len() == N
    }

    /// The dimension count.
    pub fn dimensions(&self) -> (r: usize)
        ensures
            r == N,
    {
        N
    }

    /// The four bytes of coordinate `k`.
    pub fn coord(&self, k: usize) -> (r: [u8; 4])
        requires
            k < N,
        ensures
            r@ == self@[k as int],
    {
        proof {
            use_type_invariant(self);
        }
        self.data.get(k)
    }
}

/// A point whose dimension count is only known at run time. It borrows its
/// scalars from the decoded buffer.
pub struct DataPointDyn<'a> {
    data: Scalars<'a>,
    dimensions: usize,
}

impl<'a> View for DataPointDyn<'a> {
    type V = Seq<Seq<u8>>;

    /// The point's coordinates, each as the four bytes of its scalar.
    closed spec fn view(&self) -> Seq<Seq<u8>> {
        self.data@
    }
}

impl<'a> DataPointDyn<'a> {
    #[verifier::type_invariant]
    spec fn has_dimensions_coordinates(self) -> bool {
        self.data@.len() == self.dimensions
    }

    /// The dimension count.
    pub fn dimensions(&self) -> (r: usize)
        ensures
            r == self@.len(),
    {
        proof {
            use_type_invariant(self);
        }
        self.dimensions
    }

    /// The four bytes of coordinate `k`.
    pub fn coord(&self, k: usize) -> (r: [u8; 4])
        requires
            k < self@.len(),
        ensures
            r@ == self@[k as int],
    {
        self.data.get(k)
    }
}

proof fn lemma_point_fits(i: int, n: int, d: int)
    requires
        0 < d,
        0 <= i < n / d,
    ensures
        0 <= i * d,
        i * d + d <= n,
{
    assert(0 <= i * d) by (nonlinear_arith)
        requires
            0 < d,
            0 <= i,
    ;
    assert(i * d + d <= n) by (nonlinear_arith)
        requires
            0 < d,
            0 <= i < n / d,
    ;
}

/// Groups the scalars in `packed_data` into points of `N` coordinates each.
/// Fails exactly where `decoded_points` has no result.
pub fn read_packed_data<const N: usize>(packed_data: &[u8]) -> (r: Result<
    Vec<DataPoint<'_, N>>,
    ClusterError,
>)
    ensures
        match r {
            Ok(points) => decoded_points(packed_data@, N as nat) == Some(
                points@.map_values(|p: DataPoint<N>| p@),
            ),
            Err(e) => decoded_points(packed_data@, N as nat) is None && e
                == ClusterError::UnexpectedEndOfInput,
        },
{
    let scalars = match byte_array_as_scalar_type(packed_data) {
        Ok(s) => s,
        Err(e) => return Err(e),
    };
    let n = scalars.len();
    if N == 0 || n % N != 0 {
        return Err(ClusterError::UnexpectedEndOfInput);
    }
    let point_count = n / N;
    let mut points: Vec<DataPoint<'_, N>> = Vec::with_capacity(point_count);
    let mut i: usize = 0;
    while i < point_count
        invariant
            0 < N,
            n == scalars@.len(),
            point_count == n / N,
            i <= point_count,
            points@.len() == i,
            forall|j: int|
                0 <= j < i ==> #[trigger] points@[j]@ == scalars@.subrange(j * N, j * N + N),
        decreases point_count - i,
    {
        proof {
            lemma_point_fits(i as int, n as int, N as int);
        }
        let data = scalars.sub_view(i * N, i * N + N);
        let point = DataPoint::<N> { data };
        points.push(point);
        i += 1;
    }
    assert(points@.map_values(|p: DataPoint<N>| p@) =~= decoded_points(
        packed_data@,
        N as nat,
    )->0);
    Ok(points)
}

/// Groups the scalars in `packed_data` into points of `dimensions`
/// coordinates each. Fails exactly where `decoded_points` has no result, so
/// in particular for zero dimensions.
pub fn read_packed_data_dyn(packed_data: &[u8], dimensions: usize) -> (r: Result<
    Vec<DataPointDyn<'_>>,
    ClusterError,
>)
    ensures
        match r {
            Ok(points) => decoded_points(packed_data@, dimensions as nat) == Some(
                points@.map_values(|p: DataPointDyn| p@),
            ),
            Err(e) => decoded_points(packed_data@, dimensions as nat) is None && e
                == ClusterError::UnexpectedEndOfInput,
        },
{
    let scalars = match byte_array_as_scalar_type(packed_data) {
        Ok(s) => s,
        Err(e) => return Err(e),
    };
    let n = scalars.len();
    if dimensions == 0 || n % dimensions != 0 {
        return Err(ClusterError::UnexpectedEndOfInput);
    }
    let point_count = n / dimensions;
    let mut points: Vec<DataPointDyn<'_>> = Vec::with_capacity(point_count);
    let mut i: usize = 0;
    while i < point_count
        invariant
            0 < dimensions,
            n == scalars@.len(),
            point_count == n / dimensions,
            i <= point_count,
            points@.len() == i,
            forall|j: int|
                0 <= j < i ==> #[trigger] points@[j]@ == scalars@.subrange(
                    j * dimensions,
                    j * dimensions + dimensions,
                ),
        decreases point_count - i,
    {
        proof {
            lemma_point_fits(i as int, n as int, dimensions as int);
        }
        let data = scalars.sub_view(i * dimensions, i * dimensions + dimensions);
        let point = DataPointDyn { data, dimensions };
        points.push(point);
        i += 1;
    }
    assert(points@.map_values(|p: DataPointDyn| p@) =~= decoded_points(
        packed_data@,
        dimensions as nat,
    )->0);
    Ok(points)
}

/// A buffer that is not a whole number of scalars decodes to nothing, for
/// every dimension count.
pub proof fn lemma_unaligned_buffer_rejected(bytes: Seq<u8>, dimensions: nat)
    requires
        bytes.len() % 4 != 0,
    ensures
        decoded_points(bytes, dimensions) is None,
{
}

/// A buffer of `k` scalars decodes to nothing at a dimension count `d` of
/// which `k` is not a multiple.
pub proof fn lemma_partial_point_rejected(bytes: Seq<u8>, dimensions: nat)
    requires
        bytes.len() % 4 == 0,
        forall|m: int| #[trigger] (m * dimensions) != bytes.len() / 4,
    ensures
        decoded_points(bytes, dimensions) is None,
{
    let k: int = bytes.len() as int / 4;
    let d: int = dimensions as int;
    if d > 0 {
        let m = k / d;
        assert(k == m * d + k % d) by (nonlinear_arith)
            requires
                d > 0,
                m == k / d,
        ;
        assert(m * dimensions != k);
    }
}

/// Zero dimensions never decode.
pub proof fn lemma_zero_dimensions_rejected(bytes: Seq<u8>)
    ensures
        decoded_points(bytes, 0) is None,
{
}

/// The fixed-dimension decoder at `N` and the run-time decoder at the same
/// count `N` describe the same points: both results are
/// `decoded_points(bytes, N)`, so on any buffer they succeed together and
/// agree coordinate for coordinate.
pub proof fn lemma_fixed_matches_dynamic<const N: usize>(bytes: Seq<u8>, dimensions: usize)
    requires
        1 <= N <= 7,
        dimensions == N,
    ensures
        decoded_points(bytes, N as nat) == decoded_points(bytes, dimensions as nat),
        decoded_points(bytes, N as nat) matches Some(points) ==> forall|i: int|
            0 <= i < points.len() ==> (#[trigger] points[i]).len() == N,
{
    let s = scalars_of(bytes);
    if let Some(points) = decoded_points(bytes, N as nat) {
        assert forall|i: int| 0 <= i < points.len() implies (#[trigger] points[i]).len() == N by {
            lemma_point_fits(i, s.len() as int, N as int);
        }
    }
}

} // verus!
