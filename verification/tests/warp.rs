use zarr_tiles::attributes::{Rounding, SpatialRegistration};
use zarr_tiles::cube::Cube;
use zarr_tiles::dims::{arrange, Retrieval};
use zarr_tiles::error::ZarrError;
use zarr_tiles::sample::{can_sample, sample_warp_grid};
use zarr_tiles::warp::{calculate_warp_grid_for_bbox, source_index, WarpGrid};

/// The positions of the pixels of a tile with side `n` over `bbox`, in a source
/// with the coordinates of the tile.
fn positions(bbox: [f64; 4], n: u32, registration: SpatialRegistration) -> Vec<Option<i128>> {
    let x_scale = (bbox[2] - bbox[0]) / f64::from(n);
    let y_scale = (bbox[3] - bbox[1]) / f64::from(n);
    let cell = |v: f64| {
        let v = match registration.rounding() {
            Rounding::Down => v.floor(),
            Rounding::Nearest => v.round(),
        };
        if v.is_nan() {
            None
        } else {
            Some(v as i128)
        }
    };
    let mut found = Vec::new();
    for i in 0..n {
        for j in 0..n {
            found.push(cell(bbox[0] + (f64::from(i) + 0.5) * x_scale));
            found.push(cell(bbox[1] + (f64::from(j) + 0.5) * y_scale));
        }
    }
    found
}

fn grid(bbox: [f64; 4]) -> Option<WarpGrid> {
    let found = positions(bbox, 4, SpatialRegistration::Pixel);
    calculate_warp_grid_for_bbox(&found, [4, 4], 4)
}

fn cube(shape: [u64; 3], values: &[f32]) -> Cube {
    let plan = Retrieval {
        ranges: vec![0..shape[0], 0..shape[1], 0..shape[2]],
        perm: vec![0, 1, 2],
    };
    arrange(&plan, values.iter().map(|v| v.to_bits()).collect())
}

#[test]
fn test_warp_grid_size() {
    let found = grid([0.0, 0.0, 4.0, 4.0]).expect("should be some");
    assert_eq!(found.indices.len(), 32);
}

#[test]
fn test_warp_grid_identity() {
    let result = grid([0.0, 0.0, 4.0, 4.0]);
    assert_eq!(
        result,
        Some(WarpGrid {
            indices: vec![
                0, 0, 0, 1, 0, 2, 0, 3, 1, 0, 1, 1, 1, 2, 1, 3, 2, 0, 2, 1, 2, 2, 2, 3, 3, 0, 3, 1,
                3, 2, 3, 3
            ],
            bbox: [0, 3, 3, 0],
        })
    );
}

#[test]
fn test_warp_grid_outside() {
    let result = grid([5.0, 10.0, 7.0, 12.0]);
    assert!(result.is_none());
}

#[test]
fn test_warp_grid_partial() {
    let result = grid([2.0, 2.0, 5.0, 5.0]);
    assert_eq!(
        result,
        Some(WarpGrid {
            indices: vec![
                2, 2, 2, 3, 2, 3, 2, -1, 3, 2, 3, 3, 3, 3, 3, -1, 3, 2, 3, 3, 3, 3, 3, -1, -1, 2,
                -1, 3, -1, 3, -1, -1
            ],
            bbox: [2, 3, 3, 2],
        })
    );
}

#[test]
fn test_sample_warp_grid() {
    let mut data = [0.0_f32; 16];
    for y in 0..3 {
        for x in 0..3 {
            data[y * 4 + x] = (y * 10 + x) as f32;
        }
    }
    let data = cube([1, 4, 4], &data);
    let found = grid([0.0, 0.0, 4.0, 4.0]).expect("should be some");

    assert!(can_sample(&found.indices, found.bbox, &data, 4));
    let (sampled_data, min, max) =
        sample_warp_grid(&found.indices, found.bbox, &data, 4, 0.0_f32.to_bits())
            .expect("could not calculate warp grid");

    assert_eq!(f32::from_bits(sampled_data[6]), 12.0);
    assert_eq!(f32::from_bits(min), 0.0);
    assert_eq!(f32::from_bits(max), 22.0);
}

#[test]
fn node_registration_rounds_to_the_nearest_cell() {
    let found = positions([-0.4, -0.4, 3.6, 3.6], 4, SpatialRegistration::Node);
    let nodes = calculate_warp_grid_for_bbox(&found, [4, 4], 4).unwrap();
    // 0.1, 1.1, 2.1 and 3.1 are nearest to 0, 1, 2 and 3
    assert_eq!(nodes.bbox, [0, 3, 3, 0]);
    let found = positions([-1.0, -1.0, 3.0, 3.0], 4, SpatialRegistration::Pixel);
    let pixels = calculate_warp_grid_for_bbox(&found, [4, 4], 4).unwrap();
    assert_eq!(pixels.indices[0], -1);
    assert_eq!(pixels.bbox, [0, 2, 2, 0]);
}

#[test]
fn positions_outside_the_axis_have_no_index() {
    assert_eq!(source_index(Some(0), 4), 0);
    assert_eq!(source_index(Some(3), 4), 3);
    assert_eq!(source_index(Some(4), 4), -1);
    assert_eq!(source_index(Some(-1), 4), -1);
    assert_eq!(source_index(None, 4), -1);
    assert_eq!(source_index(Some(0), 0), -1);
    let huge = i128::from(i64::MAX) + 5;
    assert_eq!(source_index(Some(huge), 1 << 64), i64::MAX);
}

#[test]
fn pixels_outside_keep_the_fill_value() {
    let found = grid([2.0, 2.0, 5.0, 5.0]).unwrap();
    // rows 2 to 3, columns 2 to 3
    let data = cube([1, 2, 2], &[1.0, 2.0, 3.0, 4.0]);
    assert!(can_sample(&found.indices, found.bbox, &data, 4));
    let (sampled, min, max) =
        sample_warp_grid(&found.indices, found.bbox, &data, 4, (-7.0_f32).to_bits()).unwrap();
    let values: Vec<f32> = sampled.into_iter().map(f32::from_bits).collect();
    assert_eq!(
        values,
        vec![
            1.0, 2.0, 2.0, -7.0, 3.0, 4.0, 4.0, -7.0, 3.0, 4.0, 4.0, -7.0, -7.0, -7.0, -7.0, -7.0
        ]
    );
    assert_eq!(f32::from_bits(min), 1.0);
    assert_eq!(f32::from_bits(max), 4.0);
}

#[test]
fn nan_takes_no_part_in_the_least_and_the_greatest() {
    let data = cube([1, 1, 1], &[f32::NAN]);
    let (sampled, min, max) =
        sample_warp_grid(&vec![0, 0], [0, 0, 0, 0], &data, 1, 0).unwrap();
    assert!(f32::from_bits(sampled[0]).is_nan());
    assert_eq!(f32::from_bits(min), f32::INFINITY);
    assert_eq!(f32::from_bits(max), f32::NEG_INFINITY);
}

#[test]
fn negative_samples_are_ordered() {
    let data = cube([1, 2, 2], &[-1.0, -2.0, 0.5, -0.0]);
    let (_, min, max) =
        sample_warp_grid(&vec![0, 0, 0, 1, 1, 0, 1, 1], [0, 1, 1, 0], &data, 2, 0).unwrap();
    assert_eq!(f32::from_bits(min), -2.0);
    assert_eq!(f32::from_bits(max), 0.5);
}

#[test]
fn an_index_before_the_box_is_refused() {
    let data = cube([1, 1, 1], &[1.0]);
    let indices = vec![2, 5];
    assert!(can_sample(&indices, [4, 5, 4, 5], &data, 1));
    let r = sample_warp_grid(&indices, [4, 5, 4, 5], &data, 1, 0);
    match r {
        Err(ZarrError::CastError(text)) => {
            assert_eq!(text, "Could not cast to usize: TryFromIntError(())")
        }
        _ => panic!("should be refused"),
    }
    // one before the box is taken for a pixel outside
    let (sampled, _, _) = sample_warp_grid(&vec![3, 5], [4, 5, 4, 5], &data, 1, 9).unwrap();
    assert_eq!(sampled, vec![9]);
}

#[test]
fn an_index_behind_the_data_cannot_be_sampled() {
    let data = cube([1, 1, 1], &[1.0]);
    assert!(!can_sample(&vec![5, 4], [4, 4, 5, 4], &data, 1));
    assert!(!can_sample(&vec![0], [0, 0, 0, 0], &data, 1));
    assert!(!can_sample(&vec![i64::MIN, 0], [1, 0, 0, 0], &data, 1));
}
