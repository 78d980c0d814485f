use augmentations::error::AugmentError;
use augmentations::mask::InteriorMask;
use augmentations::scaling::sample_random_object_scale;
use augmentations::scene::{Cuboid, Point, Quaternion};

fn tag(value: u32, factor: u64) -> u32 {
    value + factor as u32
}

fn plain_cuboids(count: usize) -> Vec<Cuboid> {
    let orientation = Quaternion { qw: 0, qx: 0, qy: 0, qz: 0 };
    vec![
        Cuboid { tx_m: 0, ty_m: 0, tz_m: 0, orientation, length_m: 0, width_m: 0, height_m: 0 };
        count
    ]
}

#[test]
fn a_mask_holds_its_cells_row_by_row() {
    let mask = InteriorMask::new(2, 3, vec![true, false, false, false, false, true]).unwrap();
    let lidar = vec![Point { x: 0, y: 0, z: 0 }; 3];
    let (lidar, _) =
        sample_random_object_scale(lidar, plain_cuboids(2), &mask, 1, 10, &vec![1, 10], tag).unwrap();
    let touched: Vec<u32> = lidar.iter().map(|p| p.x).collect();
    assert_eq!(touched, vec![1, 0, 10]);
}

#[test]
fn a_mask_of_one_column_and_many_rows() {
    let mask = InteriorMask::new(4, 1, vec![true, false, true, true]).unwrap();
    let lidar = vec![Point { x: 0, y: 0, z: 0 }];
    let (lidar, _) = sample_random_object_scale(
        lidar,
        plain_cuboids(4),
        &mask,
        1,
        1000,
        &vec![1, 10, 100, 1000],
        tag,
    )
    .unwrap();
    assert_eq!(lidar[0].x, 1101);
}

#[test]
fn a_mask_needs_one_cell_for_each_pair() {
    assert_eq!(InteriorMask::new(2, 3, vec![true; 5]).err(), Some(AugmentError::ShapeMismatch));
    assert_eq!(InteriorMask::new(2, 3, vec![true; 7]).err(), Some(AugmentError::ShapeMismatch));
    assert_eq!(InteriorMask::new(0, 3, vec![true]).err(), Some(AugmentError::ShapeMismatch));
    assert!(InteriorMask::new(2, 3, vec![true; 6]).is_ok());
}

#[test]
fn a_mask_may_be_empty_in_either_direction() {
    assert!(InteriorMask::new(0, 0, Vec::new()).is_ok());
    assert!(InteriorMask::new(0, 7, Vec::new()).is_ok());
    assert!(InteriorMask::new(7, 0, Vec::new()).is_ok());
}

#[test]
fn a_mask_whose_shape_is_too_large_is_refused() {
    assert_eq!(InteriorMask::new(usize::MAX, 2, Vec::new()).err(), Some(AugmentError::ShapeMismatch));
    assert_eq!(InteriorMask::new(0, usize::MAX, Vec::new()).err(), Some(AugmentError::ShapeMismatch));
    assert_eq!(InteriorMask::new(usize::MAX, 0, Vec::new()).err(), Some(AugmentError::ShapeMismatch));
    assert!(InteriorMask::new(0, usize::MAX / 2, Vec::new()).is_ok());
}
