use zarr_tiles::dims::{
    arrange, build_ranges, can_arrange, order_dimensions, plan_retrieval, Retrieval,
};
use zarr_tiles::error::ZarrError;
use zarr_tiles::sample::{can_sample, sample_warp_grid};
use zarr_tiles::warp::calculate_warp_grid_for_bbox;

fn names(texts: &[&str]) -> Vec<Option<String>> {
    texts.iter().map(|t| Some(t.to_string())).collect()
}

fn dimension_error(e: ZarrError) -> String {
    match e {
        ZarrError::DimensionError(text) => text,
        _ => panic!("another error: {e:?}"),
    }
}

#[test]
fn ranges_follow_the_names() {
    let r = build_ranges(&names(&["x", "time", "y"]), &Some(7..8), &(1..3), &(4..9)).unwrap();
    assert_eq!(r, vec![4..9, 7..8, 1..3]);
    assert!(build_ranges(&vec![], &None, &(1..3), &(4..9)).unwrap().is_empty());
}

#[test]
fn first_dimension_without_range_is_reported() {
    let e = build_ranges(&names(&["x", "time", "z"]), &None, &(1..3), &(4..9)).unwrap_err();
    match e {
        ZarrError::TimeError(text) => assert_eq!(text, "Missing time array indices"),
        _ => panic!("another error"),
    }
    let e = build_ranges(&names(&["x", "z", "time"]), &None, &(1..3), &(4..9)).unwrap_err();
    assert_eq!(dimension_error(e), "Unknown dimension: Some(\"z\")");
    let e = build_ranges(&vec![None], &None, &(1..3), &(4..9)).unwrap_err();
    assert_eq!(dimension_error(e), "Unknown dimension: None");
    let e = build_ranges(&names(&["a\"b"]), &None, &(1..3), &(4..9)).unwrap_err();
    assert_eq!(dimension_error(e), "Unknown dimension: Some(\"a\\\"b\")");
}

#[test]
fn dimensions_are_ordered_time_rows_columns() {
    assert_eq!(order_dimensions(&names(&["x", "y", "time"])), vec![2, 1, 0]);
    assert_eq!(order_dimensions(&names(&["x", "y"])), vec![1, 0]);
    assert_eq!(order_dimensions(&names(&["z", "x", "x"])), vec![1]);
    assert_eq!(order_dimensions(&vec![None]), Vec::<usize>::new());
}

#[test]
fn a_plan_spans_the_box() {
    let plan = plan_retrieval([2, 9, 5, 7], Some(3), &Some(names(&["y", "time", "x"]))).unwrap();
    assert_eq!(plan.ranges, vec![7..10, 3..4, 2..6]);
    assert_eq!(plan.perm, vec![1, 0, 2]);
    assert!(can_arrange(&plan, 12));
    assert!(!can_arrange(&plan, 11));
}

#[test]
fn plans_are_refused() {
    let yx = Some(names(&["y", "x"]));
    let fault = |bbox, names: &Option<Vec<Option<String>>>| {
        dimension_error(plan_retrieval(bbox, None, names).err().unwrap())
    };
    assert_eq!(fault([0, 0, 0, 0], &None), "Missing dimension names");
    assert_eq!(fault([0, u64::MAX, u64::MAX, 0], &yx), "x range overflow");
    assert_eq!(fault([0, u64::MAX, 0, 0], &yx), "y range overflow");
    assert_eq!(fault([0, 0, 0, 0], &Some(names(&["x"]))), "Expected 2 or 3 dimensions");
    assert_eq!(
        fault([0, 0, 0, 0], &Some(names(&["x", "y", "x", "y"]))),
        "Expected 2 or 3 dimensions"
    );
    assert_eq!(fault([0, 0, 0, 0], &Some(names(&["x", "q"]))), "Unknown dimension: Some(\"q\")");
}

#[test]
fn a_plan_with_a_name_twice_cannot_be_arranged() {
    let plan = plan_retrieval([0, 1, 1, 0], None, &Some(names(&["y", "y"]))).unwrap();
    assert!(!can_arrange(&plan, 4));
}

/// The samples of a tile with side 2 over all of the data, row by row.
fn shown(plan: &Retrieval, values: Vec<u32>) -> Vec<u32> {
    assert!(can_arrange(plan, values.len()));
    let data = arrange(plan, values);
    let grid = vec![0, 0, 0, 1, 1, 0, 1, 1];
    sample_warp_grid(&grid, [0, 1, 1, 0], &data, 2, 0).unwrap().0
}

#[test]
fn samples_are_turned_to_rows_and_columns() {
    let bbox = [0, 1, 1, 0];
    let as_read = vec![10, 11, 20, 21];
    for (order, expected) in [
        (vec!["time", "y", "x"], vec![10, 11, 20, 21]),
        (vec!["y", "x", "time"], vec![10, 11, 20, 21]),
        (vec!["x", "y", "time"], vec![10, 20, 11, 21]),
        (vec!["x", "time", "y"], vec![10, 20, 11, 21]),
    ] {
        let plan = plan_retrieval(bbox, Some(0), &Some(names(&order))).unwrap();
        assert_eq!(shown(&plan, as_read.clone()), expected, "{order:?}");
    }
    let plan = plan_retrieval(bbox, None, &Some(names(&["y", "x"]))).unwrap();
    assert_eq!(shown(&plan, as_read.clone()), vec![10, 11, 20, 21]);
    let plan = plan_retrieval(bbox, None, &Some(names(&["x", "y"]))).unwrap();
    assert_eq!(shown(&plan, as_read), vec![10, 20, 11, 21]);
}

#[test]
fn nothing_can_be_arranged() {
    let plan = Retrieval { ranges: vec![3..3, 0..4], perm: vec![0, 1] };
    assert!(can_arrange(&plan, 0));
    assert!(!can_arrange(&plan, 4));
    let data = arrange(&plan, vec![]);
    assert!(can_sample(&vec![-1, -1], [0, 0, 0, 0], &data, 1));
    assert!(!can_sample(&vec![0, 0], [0, 0, 0, 0], &data, 1));
    // a range that ends before it starts is empty
    let plan = Retrieval { ranges: vec![0..2, 5..4, 0..1], perm: vec![2, 0, 1] };
    assert!(can_arrange(&plan, 0));
    arrange(&plan, vec![]);
    let plan = Retrieval { ranges: vec![0..u64::MAX, 0..0], perm: vec![0, 1] };
    assert!(!can_arrange(&plan, 0));
}

#[test]
fn pixels_show_their_cells() {
    let positions = [(1, 3), (2, 3), (1, 4), (6, 4)]
        .iter()
        .flat_map(|&(x, y)| [Some(x), Some(y)])
        .collect();
    let grid = calculate_warp_grid_for_bbox(&positions, [5, 6], 2).unwrap();
    assert_eq!(grid.bbox, [1, 4, 2, 3]);
    let sample = |t: u64, y: u64, x: u64| (100 * t + 10 * y + x) as u32;

    let dims = Some(names(&["x", "time", "y"]));
    let plan = plan_retrieval(grid.bbox, Some(7), &dims).unwrap();
    let mut values = vec![];
    for x in plan.ranges[0].clone() {
        for t in plan.ranges[1].clone() {
            for y in plan.ranges[2].clone() {
                values.push(sample(t, y, x));
            }
        }
    }
    assert!(can_arrange(&plan, values.len()));
    let data = arrange(&plan, values);
    assert!(can_sample(&grid.indices, grid.bbox, &data, 2));
    let (sampled, _, _) = sample_warp_grid(&grid.indices, grid.bbox, &data, 2, 9).unwrap();
    assert_eq!(sampled, vec![sample(7, 3, 1), sample(7, 4, 1), sample(7, 3, 2), 9]);
}
