use d3st_wasm::{
    byte_array_as_scalar_type, read_packed_data, read_packed_data_dyn, read_points, ClusterError,
    DecodedPoints,
};

fn to_bytes(values: &[f32]) -> Vec<u8> {
    let mut out = Vec::new();
    for v in values {
        out.extend_from_slice(&v.to_ne_bytes());
    }
    out
}

#[test]
fn unaligned_buffer_fails_for_every_dimension() {
    for len in [1usize, 2, 3, 5, 7, 9, 13] {
        let bytes = vec![0u8; len];
        assert!(byte_array_as_scalar_type(&bytes).is_err());
        for d in 0..10usize {
            assert_eq!(read_points(&bytes, d).err(), Some(ClusterError::UnexpectedEndOfInput));
            assert!(read_packed_data_dyn(&bytes, d).is_err());
        }
        assert!(read_packed_data::<1>(&bytes).is_err());
        assert!(read_packed_data::<4>(&bytes).is_err());
    }
}

#[test]
fn partial_point_fails() {
    let bytes = to_bytes(&[1.0, 2.0, 3.0]);
    assert_eq!(read_points(&bytes, 2).err(), Some(ClusterError::UnexpectedEndOfInput));
    assert!(read_packed_data::<2>(&bytes).is_err());
    assert!(read_packed_data_dyn(&bytes, 2).is_err());
    let bytes = to_bytes(&[0.5; 10]);
    assert!(read_points(&bytes, 3).is_err());
    assert!(read_points(&bytes, 4).is_err());
    assert!(read_points(&bytes, 20).is_err());
    assert!(read_points(&bytes, 9).is_err());
    assert_eq!(read_points(&bytes, 5).unwrap().len(), 2);
    assert_eq!(read_points(&bytes, 10).unwrap().len(), 1);
}

#[test]
fn zero_dimensions_fail() {
    let bytes = to_bytes(&[1.0, 2.0]);
    assert_eq!(read_points(&bytes, 0).err(), Some(ClusterError::UnexpectedEndOfInput));
    assert!(read_packed_data_dyn(&bytes, 0).is_err());
    assert!(read_packed_data::<0>(&bytes).is_err());
    assert!(read_points(&[], 0).is_err());
}

#[test]
fn empty_buffer_has_no_points() {
    let bytes: Vec<u8> = Vec::new();
    assert_eq!(read_points(&bytes, 3).unwrap().len(), 0);
    assert_eq!(read_packed_data_dyn(&bytes, 9).unwrap().len(), 0);
    assert_eq!(read_packed_data::<2>(&bytes).unwrap().len(), 0);
}

#[test]
fn two_scalars_as_one_dimensional_points() {
    let bytes = to_bytes(&[1.0, 2.0]);
    assert_eq!(bytes.len(), 8);
    let points = read_packed_data::<1>(&bytes).unwrap();
    assert_eq!(points.len(), 2);
    assert_eq!(points[0].dimensions(), 1);
    assert_eq!(f32::from_ne_bytes(points[0].coord(0)), 1.0);
    assert_eq!(f32::from_ne_bytes(points[1].coord(0)), 2.0);
    match read_points(&bytes, 1).unwrap() {
        DecodedPoints::Fixed1(v) => {
            assert_eq!(f32::from_ne_bytes(v[0].coord(0)), 1.0);
            assert_eq!(f32::from_ne_bytes(v[1].coord(0)), 2.0);
        }
        _ => panic!("one dimension takes the fixed path"),
    }
}

fn fixed_coords<const N: usize>(bytes: &[u8]) -> Vec<Vec<[u8; 4]>> {
    read_packed_data::<N>(bytes)
        .unwrap()
        .iter()
        .map(|p| (0..N).map(|k| p.coord(k)).collect())
        .collect()
}

fn dyn_coords(bytes: &[u8], d: usize) -> Vec<Vec<[u8; 4]>> {
    read_packed_data_dyn(bytes, d)
        .unwrap()
        .iter()
        .map(|p| (0..p.dimensions()).map(|k| p.coord(k)).collect())
        .collect()
}

#[test]
fn fixed_and_dynamic_decoders_agree() {
    let values: Vec<f32> = (0..420).map(|i| i as f32 * 0.25 - 7.0).collect();
    let bytes = to_bytes(&values);
    assert_eq!(fixed_coords::<1>(&bytes), dyn_coords(&bytes, 1));
    assert_eq!(fixed_coords::<2>(&bytes), dyn_coords(&bytes, 2));
    assert_eq!(fixed_coords::<3>(&bytes), dyn_coords(&bytes, 3));
    assert_eq!(fixed_coords::<4>(&bytes), dyn_coords(&bytes, 4));
    assert_eq!(fixed_coords::<5>(&bytes), dyn_coords(&bytes, 5));
    assert_eq!(fixed_coords::<6>(&bytes), dyn_coords(&bytes, 6));
    assert_eq!(fixed_coords::<7>(&bytes), dyn_coords(&bytes, 7));
    let third = dyn_coords(&bytes, 3);
    assert_eq!(third.len(), 140);
    assert_eq!(f32::from_ne_bytes(third[2][1]), 7.0 * 0.25 - 7.0);
}

#[test]
fn dispatch_picks_the_path_by_dimension() {
    let values: Vec<f32> = (0..840).map(|i| i as f32).collect();
    let bytes = to_bytes(&values);
    assert!(matches!(read_points(&bytes, 1), Ok(DecodedPoints::Fixed1(_))));
    assert!(matches!(read_points(&bytes, 2), Ok(DecodedPoints::Fixed2(_))));
    assert!(matches!(read_points(&bytes, 3), Ok(DecodedPoints::Fixed3(_))));
    assert!(matches!(read_points(&bytes, 4), Ok(DecodedPoints::Fixed4(_))));
    assert!(matches!(read_points(&bytes, 5), Ok(DecodedPoints::Fixed5(_))));
    assert!(matches!(read_points(&bytes, 6), Ok(DecodedPoints::Fixed6(_))));
    assert!(matches!(read_points(&bytes, 7), Ok(DecodedPoints::Fixed7(_))));
    match read_points(&bytes, 8).unwrap() {
        DecodedPoints::Dynamic(v) => {
            assert_eq!(v.len(), 105);
            assert_eq!(v[1].dimensions(), 8);
            assert_eq!(f32::from_ne_bytes(v[1].coord(3)), 11.0);
        }
        _ => panic!("eight dimensions take the run-time path"),
    }
    assert_eq!(read_points(&bytes, 7).unwrap().len(), 120);
}

#[test]
fn scalar_view_reads_and_slices() {
    let bytes: Vec<u8> = (0u8..12).collect();
    let s = byte_array_as_scalar_type(&bytes).unwrap();
    assert_eq!(s.len(), 3);
    assert_eq!(s.get(1), [4, 5, 6, 7]);
    let tail = s.sub_view(1, 3);
    assert_eq!(tail.len(), 2);
    assert_eq!(tail.get(1), [8, 9, 10, 11]);
}

#[test]
fn error_message() {
    assert_eq!(ClusterError::UnexpectedEndOfInput.message(), "unexpected end of input");
}
