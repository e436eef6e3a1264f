use zarr_tiles::attributes::{Attributes, SpatialRegistration};
use zarr_tiles::cache::TileCoord;
use zarr_tiles::dims::{arrange, plan_retrieval};
use zarr_tiles::error::ZarrError;
use zarr_tiles::floats::{is_less_32, is_less_64, is_nan_32, is_nan_64};
use zarr_tiles::png::{sampled_data_to_png, tile_to_png};
use zarr_tiles::source::{
    advance, kept_grid, pool_threads, requested_moment, TileEvent, TileState, ZarrSource,
};
use zarr_tiles::text::{contains, eq_ignore_ascii_case, find, text_before, text_behind};
use zarr_tiles::time::Moment;
use zarr_tiles::warp::{calculate_warp_grid_for_bbox, WarpGrid, TILE_PIXELS};

const TRANSFORM: [u64; 6] = [1, 2, 3, 4, 5, 6];
const BBOX: [u64; 4] = [7, 8, 9, 10];

fn store(without: &str) -> Attributes {
    let mut found = Attributes::new();
    for (key, json) in [
        ("proj:code", "\"EPSG:31287\""),
        ("spatial:transform", "[]"),
        ("spatial:bbox", "[]"),
        ("spatial:shape", "[431, 701]"),
        ("spatial:registration", "\"pixel\""),
    ] {
        if key != without {
            found.insert(key.to_string(), json.to_string());
        }
    }
    found
}

fn source() -> ZarrSource {
    let vars = vec!["/snow_depth".to_string(), "/snow_temp".to_string()];
    ZarrSource::new("snow".to_string(), &store(""), Ok(TRANSFORM), Ok(BBOX), vars).unwrap()
}

fn at() -> Moment {
    requested_moment().unwrap()
}

#[test]
fn a_source_is_what_its_attributes_say() {
    let found = source();
    assert_eq!(found.get_id(), "snow");
    assert_eq!((found.min_zoom, found.max_zoom), (0, 23));
    assert_eq!(found.src_crs, "EPSG:31287");
    assert_eq!(found.src_transform, TRANSFORM);
    assert_eq!(found.src_bbox, BBOX);
    assert_eq!(found.src_shape, [431, 701]);
    assert_eq!(found.spatial_registration, SpatialRegistration::Pixel);
    assert!(found.holds_requested_variable());
    assert!(found.support_url_query());
}

#[test]
fn the_first_missing_attribute_is_reported() {
    let fault = |without: &str| {
        match ZarrSource::new(String::new(), &store(without), Ok(TRANSFORM), Ok(BBOX), vec![]) {
            Err(ZarrError::AttributeError(text)) => text,
            _ => panic!("should be refused"),
        }
    };
    assert_eq!(fault("proj:code"), "proj:code");
    assert_eq!(fault("spatial:transform"), "spatial:transform is missing");
    assert_eq!(fault("spatial:bbox"), "spatial:transform is missing");
    assert_eq!(fault("spatial:shape"), "spatial:shape is missing");
    assert_eq!(fault("spatial:registration"), "spatial:registration is missing");
    let r = ZarrSource::new(
        String::new(),
        &store("spatial:shape"),
        Err("first".to_string()),
        Err("second".to_string()),
        vec![],
    );
    match r {
        Err(ZarrError::AttributeError(text)) => {
            assert_eq!(text, "Invalid spatial:transform format: first")
        }
        _ => panic!("should be refused"),
    }
}

#[test]
fn tiles_show_a_day_in_august() {
    assert_eq!(at(), Moment { seconds: 1_786_579_200, nanos: 0 });
}

#[test]
fn tiles_of_other_zoom_levels_are_empty() {
    let mut found = source();
    found.min_zoom = 4;
    for z in [3, 24, 255] {
        match found.get_tile(TileCoord { z, x: 0, y: 0 }, at()) {
            TileState::Answered { answer: Ok(bytes) } => assert!(bytes.is_empty()),
            _ => panic!("should be empty"),
        }
    }
    for z in [4, 23] {
        let tile = TileCoord { z, x: 1, y: 2 };
        match found.get_tile(tile, at()) {
            TileState::Locating { key, data_var, at: moment } => {
                assert_eq!(key.0, tile);
                assert_eq!(key.1, "snow");
                assert_eq!(data_var, "/snow_temp");
                assert_eq!(moment, at());
            }
            _ => panic!("should be located"),
        }
    }
}

#[test]
fn tiles_outside_the_source_are_empty() {
    let begun = source().get_tile(TileCoord { z: 0, x: 0, y: 0 }, at());
    match advance(begun, TileEvent::Located(None)) {
        TileState::Answered { answer: Ok(bytes) } => assert!(bytes.is_empty()),
        _ => panic!("should be empty"),
    }
}

fn all_at(column: i128, row: i128) -> WarpGrid {
    let n = TILE_PIXELS * TILE_PIXELS;
    let positions = (0..n).flat_map(|_| [Some(column), Some(row)]).collect();
    calculate_warp_grid_for_bbox(&positions, [431, 701], TILE_PIXELS).unwrap()
}

#[test]
fn tiles_go_from_grid_to_image() {
    let begun = source().get_tile(TileCoord { z: 0, x: 0, y: 0 }, at());
    let grid = all_at(5, 6);
    assert_eq!(grid.bbox, [5, 6, 5, 6]);
    let names = Some(vec![Some("y".to_string()), Some("x".to_string())]);
    let plan = plan_retrieval(grid.bbox, None, &names).unwrap();
    let data = arrange(&plan, vec![3.5_f32.to_bits()]);
    let reading = advance(begun, TileEvent::Located(Some(grid)));
    let shading = advance(reading, TileEvent::Read { data, fill_value: 0 });
    let TileState::Shading { sampled, min, max } = &shading else {
        panic!("should be shaded")
    };
    assert_eq!(sampled.len(), 512 * 512);
    assert_eq!(f32::from_bits(*min), 3.5);
    assert_eq!(f32::from_bits(*max), 3.5);
    let shades = vec![77; sampled.len()];
    let TileState::Answered { answer } = advance(shading, TileEvent::Shaded(shades)) else {
        panic!("should be answered")
    };
    let image = image::load_from_memory(&answer.unwrap()).unwrap().to_rgba8();
    assert_eq!(image.dimensions(), (512, 512));
    assert!(image.pixels().all(|p| p.0 == [77, 77, 77, 255]));
}

#[test]
fn a_grid_beside_its_box_refuses_the_tile() {
    let begun = source().get_tile(TileCoord { z: 0, x: 0, y: 0 }, at());
    let mut grid = all_at(5, 6);
    let names = Some(vec![Some("y".to_string()), Some("x".to_string())]);
    let plan = plan_retrieval(grid.bbox, None, &names).unwrap();
    let data = arrange(&plan, vec![0]);
    grid.indices[0] = 1;
    let reading = advance(begun, TileEvent::Located(Some(grid)));
    match advance(reading, TileEvent::Read { data, fill_value: 0 }) {
        TileState::Answered { answer: Err(ZarrError::CastError(_)) } => {}
        _ => panic!("should be refused"),
    }
}

#[test]
fn a_grid_that_was_not_calculated_is_kept_as_none() {
    let grid = WarpGrid { indices: vec![0, 0], bbox: [0; 4] };
    assert_eq!(kept_grid::<ZarrError>(Ok(Some(grid.clone()))), Some(grid));
    assert_eq!(kept_grid::<ZarrError>(Ok(None)), None);
    assert_eq!(kept_grid(Err(ZarrError::TimeError(String::new()))), None);
}

#[test]
fn two_threads_are_left_to_others() {
    assert_eq!(pool_threads(None), 1);
    assert_eq!(pool_threads(Some(1)), 1);
    assert_eq!(pool_threads(Some(3)), 1);
    assert_eq!(pool_threads(Some(4)), 2);
    assert_eq!(pool_threads(Some(16)), 14);
}

#[test]
fn samples_are_grey_and_nan_is_transparent() {
    let samples = [1.0_f32, f32::NAN, -3.0].map(f32::to_bits).to_vec();
    let png = sampled_data_to_png(&samples, &vec![10, 20, 30], 2, 2).unwrap();
    let image = image::load_from_memory(&png).unwrap().to_rgba8();
    assert_eq!(image.dimensions(), (2, 2));
    assert_eq!(image.get_pixel(0, 0).0, [10, 10, 10, 255]);
    assert_eq!(image.get_pixel(1, 0).0, [0, 0, 0, 0]);
    assert_eq!(image.get_pixel(0, 1).0, [30, 30, 30, 255]);
    assert_eq!(image.get_pixel(1, 1).0, [0, 0, 0, 0]);
}

#[test]
fn a_tile_has_512_pixels_a_side() {
    let png = tile_to_png(&vec![0], &vec![9]).unwrap();
    let image = image::load_from_memory(&png).unwrap().to_rgba8();
    assert_eq!(image.dimensions(), (512, 512));
    assert_eq!(image.get_pixel(0, 0).0, [9, 9, 9, 255]);
}

#[test]
fn an_image_without_pixels_is_refused() {
    let r = sampled_data_to_png(&vec![], &vec![], 0, 0);
    assert!(matches!(r, Err(ZarrError::ImageError(_))));
}

#[test]
fn bit_patterns_are_ordered_as_numbers() {
    let numbers = [
        f64::NEG_INFINITY,
        -1.5,
        -f64::MIN_POSITIVE,
        -0.0,
        0.0,
        1e-300,
        2.0,
        f64::MAX,
        f64::INFINITY,
        f64::NAN,
        -f64::NAN,
    ];
    for a in numbers {
        assert_eq!(is_nan_64(a.to_bits()), a.is_nan());
        for b in numbers {
            assert_eq!(is_less_64(a.to_bits(), b.to_bits()), a < b, "{a} {b}");
            let (c, d) = (a as f32, b as f32);
            assert_eq!(is_less_32(c.to_bits(), d.to_bits()), c < d, "{c} {d}");
        }
    }
    assert!(is_nan_32(f32::NAN.to_bits()));
    assert!(!is_nan_32(f32::INFINITY.to_bits()));
}

#[test]
fn texts_are_searched_by_characters() {
    assert_eq!(find("d\u{e4}ys since since x", " since "), Some(4));
    assert_eq!(find("days", ""), Some(0));
    assert_eq!(find("a", "aa"), None);
    assert!(contains("abc", "bc"));
    assert!(!contains("abc", "cb"));
    assert_eq!(text_before("a b c", " "), "a");
    assert_eq!(text_before("abc", " "), "abc");
    assert_eq!(text_behind("a b c", " "), "b c");
    assert!(eq_ignore_ascii_case("TrUe", "true"));
    assert!(!eq_ignore_ascii_case("\u{c9}", "\u{e9}"));
    assert!(!eq_ignore_ascii_case("true", "tru"));
}
