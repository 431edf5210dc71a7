use vstd::prelude::*;

use crate::error::ClusterError;
use crate::points::{decoded_points, read_packed_data, read_packed_data_dyn, DataPoint, DataPointDyn};

verus! {

/// Points decoded along the path that their dimension count selects: one
/// fixed-dimension representation for each count from 1 to 7, and the
/// run-time representation for every other count.
pub enum DecodedPoints<'a> {
    Fixed1(Vec<DataPoint<'a, 1>>),
    Fixed2(Vec<DataPoint<'a, 2>>),
    Fixed3(Vec<DataPoint<'a, 3>>),
    Fixed4(Vec<DataPoint<'a, 4>>),
    Fixed5(Vec<DataPoint<'a, 5>>),
    Fixed6(Vec<DataPoint<'a, 6>>),
    Fixed7(Vec<DataPoint<'a, 7>>),
    Dynamic(Vec<DataPointDyn<'a>>),
}

impl<'a> View for DecodedPoints<'a> {
    type V = Seq<Seq<Seq<u8>>>;

    /// The coordinates of each point, whatever its representation.
    open spec fn view(&self) -> Seq<Seq<Seq<u8>>> {
        match self {
            DecodedPoints::Fixed1(v) => v@.map_values(|p: DataPoint<1>| p@),
            DecodedPoints::Fixed2(v) => v@.map_values(|p: DataPoint<2>| p@),
            DecodedPoints::Fixed3(v) => v@.map_values(|p: DataPoint<3>| p@),
            DecodedPoints::Fixed4(v) => v@.map_values(|p: DataPoint<4>| p@),
            DecodedPoints::Fixed5(v) => v@.map_values(|p: DataPoint<5>| p@),
            DecodedPoints::Fixed6(v) => v@.map_values(|p: DataPoint<6>| p@),
            DecodedPoints::Fixed7(v) => v@.map_values(|p: DataPoint<7>| p@),
            DecodedPoints::Dynamic(v) => v@.map_values(|p: DataPointDyn| p@),
        }
    }
}

impl<'a> DecodedPoints<'a> {
    /// The compile-time dimension count of the representation, or zero for
    /// the run-time one.
    pub open spec fn fixed_dimensions(self) -> nat {
        match self {
            DecodedPoints::Fixed1(_) => 1,
            DecodedPoints::Fixed2(_) => 2,
            DecodedPoints::Fixed3(_) => 3,
            DecodedPoints::Fixed4(_) => 4,
            DecodedPoints::Fixed5(_) => 5,
            DecodedPoints::Fixed6(_) => 6,
            DecodedPoints::Fixed7(_) => 7,
            DecodedPoints::Dynamic(_) => 0,
        }
    }

    /// Number of points.
    pub fn len(&self) -> (r: usize)
        ensures
            r == self@.len(),
    {
        match self {
            DecodedPoints::Fixed1(v) => v.len(),
            DecodedPoints::Fixed2(v) => v.len(),
            DecodedPoints::Fixed3(v) => v.len(),
            DecodedPoints::Fixed4(v) => v.len(),
            DecodedPoints::Fixed5(v) => v.len(),
            DecodedPoints::Fixed6(v) => v.len(),
            DecodedPoints::Fixed7(v) => v.len(),
            DecodedPoints::Dynamic(v) => v.len(),
        }
    }
}

/// Decodes `packed_data` into points of `dimensions` coordinates, through
/// the fixed-dimension decoder for counts 1 to 7 and the run-time decoder
/// for any other count. The points are the same whichever path is taken.
pub fn read_points(packed_data: &[u8], dimensions: usize) -> (r: Result<
    DecodedPoints<'_>,
    ClusterError,
>)
    ensures
        match r {
            Ok(points) => {
                &&& decoded_points(packed_data@, dimensions as nat) == Some(points@)
                &&& 1 <= dimensions <= 7 ==> points.fixed_dimensions() == dimensions
                &&& !(1 <= dimensions <= 7) ==> points is Dynamic
            },
            Err(e) => decoded_points(packed_data@, dimensions as nat) is None && e
                == ClusterError::UnexpectedEndOfInput,
        },
{
    match dimensions {
        1 => match read_packed_data::<1>(packed_data) {
            Ok(v) => Ok(DecodedPoints::Fixed1(v)),
            Err(e) => Err(e),
        },
        2 => match read_packed_data::<2>(packed_data) {
            Ok(v) => Ok(DecodedPoints::Fixed2(v)),
            Err(e) => Err(e),
        },
        3 => match read_packed_data::<3>(packed_data) {
            Ok(v) => Ok(DecodedPoints::Fixed3(v)),
            Err(e) => Err(e),
        },
        4 => match read_packed_data::<4>(packed_data) {
            Ok(v) => Ok(DecodedPoints::Fixed4(v)),
            Err(e) => Err(e),
        },
        5 => match read_packed_data::<5>(packed_data) {
            Ok(v) => Ok(DecodedPoints::Fixed5(v)),
            Err(e) => Err(e),
        },
        6 => match read_packed_data::<6>(packed_data) {
            Ok(v) => Ok(DecodedPoints::Fixed6(v)),
            Err(e) => Err(e),
        },
        7 => match read_packed_data::<7>(packed_data) {
            Ok(v) => Ok(DecodedPoints::Fixed7(v)),
            Err(e) => Err(e),
        },
        _ => match read_packed_data_dyn(packed_data, dimensions) {
            Ok(v) => Ok(DecodedPoints::Dynamic(v)),
            Err(e) => Err(e),
        },
    }
}

} // verus!
