//! What holds of a tile from its warp grid to its samples.

#[allow(unused_imports)]
use std::ops::Range;

use vstd::prelude::*;

#[allow(unused_imports)]
use crate::cube::{
    cube_cells, cube_offset, cube_shape, in_cube, index_before, orders_three, orders_two, Cube,
};
#[allow(unused_imports)]
use crate::dims::{
    column_range, dimension_order, first_named, first_rejection, is_named, length, place, range_of,
    ranges_of, row_range, time_range, whole, DimensionName, Retrieval,
};
#[allow(unused_imports)]
use crate::error::ZarrError;
#[allow(unused_imports)]
use crate::sample::{
    law_window_covers_grid, pixel_value, sampleable, shown_column, shown_row, shows, signed, stops,
};
#[allow(unused_imports)]
use crate::warp::{in_source, pixel_column, pixel_row, WarpGrid};

verus! {

/// Whether a dimension with this name is there.
pub open spec fn has_dimension(names: Seq<DimensionName>, text: Seq<char>) -> bool {
    exists|k: int| 0 <= k < names.len() && is_named(#[trigger] names[k], text)
}

/// Whether the dimensions are those of a raster: rows and columns, and time
/// where there is a third one, in any order.
pub open spec fn is_raster(names: Seq<DimensionName>) -> bool {
    &&& has_dimension(names, "y"@)
    &&& has_dimension(names, "x"@)
    &&& names.len() == 2 || (names.len() == 3 && has_dimension(names, "time"@))
}

/// The names of the dimensions are different texts.
proof fn lemma_names_differ()
    ensures
        "time"@ != "y"@,
        "time"@ != "x"@,
        "y"@ != "x"@,
{
    reveal_strlit("time");
    reveal_strlit("y");
    reveal_strlit("x");
    assert("time"@.len() == 4);
    assert("y"@.len() == 1);
    assert("x"@.len() == 1);
    assert("y"@[0] != "x"@[0]);
}

/// A name that is there has a first place.
proof fn lemma_place(names: Seq<DimensionName>, text: Seq<char>) -> (at: int)
    requires
        has_dimension(names, text),
    ensures
        first_named(names, text, at),
        place(names, text) == seq![at],
{
    let k = choose|k: int| 0 <= k < names.len() && is_named(#[trigger] names[k], text);
    lemma_first(names, text, k);
    choose|at: int| first_named(names, text, at)
}

/// A name that is there has a first place.
proof fn lemma_first(names: Seq<DimensionName>, text: Seq<char>, k: int)
    requires
        0 <= k < names.len(),
        is_named(names[k], text),
    ensures
        exists|at: int| first_named(names, text, at),
    decreases k,
{
    if exists|m: int| 0 <= m < k && is_named(#[trigger] names[m], text) {
        let m = choose|m: int| 0 <= m < k && is_named(#[trigger] names[m], text);
        lemma_first(names, text, m);
    } else {
        assert(first_named(names, text, k));
    }
}

/// A name that is missing has no place.
proof fn lemma_no_place(names: Seq<DimensionName>, text: Seq<char>)
    requires
        !has_dimension(names, text),
    ensures
        place(names, text) == Seq::<int>::empty(),
{
    if exists|at: int| first_named(names, text, at) {
        let at = choose|at: int| first_named(names, text, at);
        assert(is_named(names[at], text));
    }
}

/// Of two dimensions that are rows and columns none is time.
proof fn lemma_flat(names: Seq<DimensionName>, y: int, x: int)
    requires
        names.len() == 2,
        first_named(names, "y"@, y),
        first_named(names, "x"@, x),
    ensures
        place(names, "time"@) == Seq::<int>::empty(),
        y != x,
{
    lemma_names_differ();
    if has_dimension(names, "time"@) {
        let k = choose|k: int| 0 <= k < names.len() && is_named(#[trigger] names[k], "time"@);
        assert(k != y && k != x && y != x);
    }
    lemma_no_place(names, "time"@);
}

/// Positive numbers have a positive product.
proof fn lemma_positive(a: int, b: int, c: int)
    requires
        a > 0,
        b > 0,
        c > 0,
    ensures
        a * b > 0,
        a * b * c > 0,
{
    assert(a * b > 0) by (nonlinear_arith)
        requires
            a > 0,
            b > 0,
    ;
    let area = a * b;
    assert(area * c > 0) by (nonlinear_arith)
        requires
            area > 0,
            c > 0,
    ;
}

/// The samples that are read for a tile of a raster are one time, the rows and
/// the columns of the box, in this order once they are turned, whatever the
/// order of the dimensions.
pub proof fn law_retrieval_is_the_box(
    plan: Retrieval,
    names: Seq<DimensionName>,
    bbox: [u64; 4],
    temporal_index: Option<u64>,
)
    requires
        is_raster(names),
        temporal_index matches Some(t) ==> t < u64::MAX,
        bbox[0] <= bbox[2] < u64::MAX,
        bbox[3] <= bbox[1] < u64::MAX,
        bbox[1] - bbox[3] + 1 <= usize::MAX,
        bbox[2] - bbox[0] + 1 <= usize::MAX,
        plan.fits(names, bbox, temporal_index),
    ensures
        plan.arrangeable(),
        plan.turned_shape() == seq![1, bbox[1] - bbox[3] + 1, bbox[2] - bbox[0] + 1],
{
    lemma_names_differ();
    let time = time_range(temporal_index);
    let y = lemma_place(names, "y"@);
    let x = lemma_place(names, "x"@);
    let perm = plan.perm@;
    let ranges = plan.ranges@;
    assert(range_of(names[y], time, row_range(bbox), column_range(bbox)) == Some(ranges[y]));
    assert(range_of(names[x], time, row_range(bbox), column_range(bbox)) == Some(ranges[x]));
    if names.len() == 3 {
        let t = lemma_place(names, "time"@);
        assert(range_of(names[t], time, row_range(bbox), column_range(bbox)) == Some(ranges[t]));
        assert(whole(perm) == seq![t] + seq![y] + seq![x]);
        assert(whole(perm).len() == 3);
        assert(perm.len() == 3);
        assert(whole(perm)[0] == perm[0] && whole(perm)[1] == perm[1] && whole(perm)[2] == perm[2]);
        assert forall|k: int| 0 <= k < ranges.len() implies 0 < length(#[trigger] ranges[k])
            <= usize::MAX by {
            assert(range_of(names[k], time, row_range(bbox), column_range(bbox)) == Some(ranges[k]));
        }
        lemma_positive(length(ranges[0]), length(ranges[1]), length(ranges[2]));
    } else {
        lemma_flat(names, y, x);
        assert(whole(perm) =~= seq![y] + seq![x]);
        assert(whole(perm).len() == 2);
        assert(whole(perm)[0] == perm[0] && whole(perm)[1] == perm[1]);
        assert forall|k: int| 0 <= k < ranges.len() implies 0 < length(#[trigger] ranges[k])
            <= usize::MAX by {
            assert(range_of(names[k], time, row_range(bbox), column_range(bbox)) == Some(ranges[k]));
        }
        lemma_positive(length(ranges[0]), length(ranges[1]), 1);
    }
    assert(plan.turned_shape() =~= seq![1, bbox[1] - bbox[3] + 1, bbox[2] - bbox[0] + 1]);
}

/// The box of a grid is made of signed numbers, and is not empty.
proof fn lemma_box_is_signed(grid: WarpGrid, tile_len: int)
    requires
        grid.wf(tile_len),
    ensures
        grid.bbox[0] <= grid.bbox[2] <= i64::MAX,
        grid.bbox[3] <= grid.bbox[1] <= i64::MAX,
        signed(grid.bbox[0]) == grid.bbox[0],
        signed(grid.bbox[3]) == grid.bbox[3],
{
    let n = tile_len * tile_len;
    let indices = grid.indices@;
    let l = choose|p: int| 0 <= p < n && #[trigger] in_source(indices, p) && pixel_column(indices, p)
        == grid.bbox[0];
    assert(in_source(indices, l));
    let r = choose|p: int| 0 <= p < n && #[trigger] in_source(indices, p) && pixel_column(indices, p)
        == grid.bbox[2];
    assert(in_source(indices, r));
    let b = choose|p: int| 0 <= p < n && #[trigger] in_source(indices, p) && pixel_row(indices, p)
        == grid.bbox[1];
    assert(in_source(indices, b));
}

/// A tile that shows a part of a raster can be sampled: what is read for the box
/// of its warp grid holds the sample of every pixel in the source, and no pixel
/// stops the sampling.
pub proof fn law_grid_can_be_sampled(
    grid: WarpGrid,
    tile_len: int,
    plan: Retrieval,
    names: Seq<DimensionName>,
    temporal_index: Option<u64>,
)
    requires
        grid.wf(tile_len),
        is_raster(names),
        temporal_index matches Some(t) ==> t < u64::MAX,
        grid.bbox[1] - grid.bbox[3] + 1 <= usize::MAX,
        grid.bbox[2] - grid.bbox[0] + 1 <= usize::MAX,
        plan.fits(names, grid.bbox, temporal_index),
    ensures
        plan.arrangeable(),
        sampleable(grid.indices@, grid.bbox, plan.turned_shape(), tile_len),
        forall|p: int|
            0 <= p < tile_len * tile_len ==> {
                &&& !#[trigger] stops(grid.indices@, grid.bbox, p)
                &&& shows(grid.indices@, grid.bbox, p) <==> in_source(grid.indices@, p)
            },
{
    lemma_box_is_signed(grid, tile_len);
    law_retrieval_is_the_box(plan, names, grid.bbox, temporal_index);
    law_window_covers_grid(grid, plan.turned_shape(), tile_len);
}

/// The indices, one along each dimension, of the sample of a time in a row and a
/// column.
pub open spec fn cell_of(names: Seq<DimensionName>, time: int, row: int, column: int) -> Seq<int> {
    Seq::new(
        names.len(),
        |k: int|
            if is_named(names[k], "time"@) {
                time
            } else if is_named(names[k], "y"@) {
                row
            } else {
                column
            },
    )
}

/// The sample of an array, given by its indices, at some indices into the ranges.
pub open spec fn sample_3(
    array: spec_fn(Seq<int>) -> u32,
    ranges: Seq<Range<u64>>,
    a: int,
    b: int,
    c: int,
) -> u32 {
    array(seq![ranges[0].start + a, ranges[1].start + b, ranges[2].start + c])
}

/// The sample of an array, given by its indices, at some indices into the ranges.
pub open spec fn sample_2(
    array: spec_fn(Seq<int>) -> u32,
    ranges: Seq<Range<u64>>,
    a: int,
    b: int,
) -> u32 {
    array(seq![ranges[0].start + a, ranges[1].start + b])
}

/// Whether the values are the samples of an array in some ranges, the last
/// dimension running fastest.
pub open spec fn read_from(
    array: spec_fn(Seq<int>) -> u32,
    ranges: Seq<Range<u64>>,
    values: Seq<u32>,
) -> bool {
    if ranges.len() == 3 {
        let lengths = seq![length(ranges[0]), length(ranges[1]), length(ranges[2])];
        forall|a: int, b: int, c: int|
            in_cube(lengths, a, b, c) ==> #[trigger] sample_3(array, ranges, a, b, c)
                == values[cube_offset(lengths, a, b, c)]
    } else {
        forall|a: int, b: int|
            0 <= a < length(ranges[0]) && 0 <= b < length(ranges[1]) ==> #[trigger] sample_2(
                array,
                ranges,
                a,
                b,
            ) == values[a * length(ranges[1]) + b]
    }
}

/// A pixel of a tile shows its cell: where it lies in the source, its value is the
/// sample of the array in the row and the column that the warp grid gives it, at
/// the time that was asked for; elsewhere it is the fill value. This holds
/// whatever the order of the dimensions.
pub proof fn law_pixel_shows_its_cell(
    grid: WarpGrid,
    tile_len: int,
    plan: Retrieval,
    names: Seq<DimensionName>,
    temporal_index: Option<u64>,
    array: spec_fn(Seq<int>) -> u32,
    values: Seq<u32>,
    data: Cube,
    fill_value: u32,
    pixel: int,
)
    requires
        grid.wf(tile_len),
        is_raster(names),
        temporal_index matches Some(t) ==> t < u64::MAX,
        grid.bbox[1] - grid.bbox[3] + 1 <= usize::MAX,
        grid.bbox[2] - grid.bbox[0] + 1 <= usize::MAX,
        plan.fits(names, grid.bbox, temporal_index),
        read_from(array, plan.ranges@, values),
        cube_shape(data) == plan.turned_shape(),
        forall|a: int, b: int, c: int|
            in_cube(cube_shape(data), a, b, c) ==> #[trigger] cube_cells(data)[(a, b, c)]
                == values[plan.turned_offset(a, b, c)],
        0 <= pixel < tile_len * tile_len,
    ensures
        pixel_value(grid.indices@, grid.bbox, data, fill_value, pixel) == (if in_source(
            grid.indices@,
            pixel,
        ) {
            array(
                cell_of(
                    names,
                    match temporal_index {
                        Some(t) => t as int,
                        None => 0,
                    },
                    pixel_row(grid.indices@, pixel) as int,
                    pixel_column(grid.indices@, pixel) as int,
                ),
            )
        } else {
            fill_value
        }),
{
    let n = tile_len * tile_len;
    let indices = grid.indices@;
    let bbox = grid.bbox;
    law_grid_can_be_sampled(grid, tile_len, plan, names, temporal_index);
    assert(!stops(indices, bbox, pixel));
    if in_source(indices, pixel) {
        lemma_box_is_signed(grid, tile_len);
        law_retrieval_is_the_box(plan, names, bbox, temporal_index);
        lemma_names_differ();
        let row = pixel_row(indices, pixel) as int;
        let column = pixel_column(indices, pixel) as int;
        let r = row - bbox[3];
        let c = column - bbox[0];
        assert(shown_row(indices, bbox, pixel) == r && shown_column(indices, bbox, pixel) == c);
        assert(in_cube(cube_shape(data), 0, r, c));
        assert(cube_cells(data)[(0, r, c)] == values[plan.turned_offset(0, r, c)]);
        let time = time_range(temporal_index);
        let perm = plan.perm@;
        let ranges = plan.ranges@;
        let y = lemma_place(names, "y"@);
        let x = lemma_place(names, "x"@);
        assert(range_of(names[y], time, row_range(bbox), column_range(bbox)) == Some(ranges[y]));
        assert(range_of(names[x], time, row_range(bbox), column_range(bbox)) == Some(ranges[x]));
        if names.len() == 3 {
            let t = lemma_place(names, "time"@);
            assert(range_of(names[t], time, row_range(bbox), column_range(bbox)) == Some(ranges[t]));
            assert(whole(perm) == seq![t] + seq![y] + seq![x]);
            assert(whole(perm)[0] == perm[0] && whole(perm)[1] == perm[1] && whole(perm)[2] == perm[2]);
            let i = index_before(perm, 0, 0, r, c);
            let j = index_before(perm, 1, 0, r, c);
            let k = index_before(perm, 2, 0, r, c);
            let lengths = seq![length(ranges[0]), length(ranges[1]), length(ranges[2])];
            assert(in_cube(lengths, i, j, k));
            assert(sample_3(array, ranges, i, j, k) == values[cube_offset(lengths, i, j, k)]);
            assert(seq![ranges[0].start + i, ranges[1].start + j, ranges[2].start + k] =~= cell_of(
                names,
                temporal_index->Some_0 as int,
                row,
                column,
            ));
        } else {
            lemma_flat(names, y, x);
            assert(whole(perm) =~= seq![y] + seq![x]);
            assert(whole(perm)[0] == perm[0] && whole(perm)[1] == perm[1]);
            let i = if y == 0 { r } else { c };
            let j = if y == 0 { c } else { r };
            assert(sample_2(array, ranges, i, j) == values[i * length(ranges[1]) + j]);
            let t = match temporal_index {
                Some(t) => t as int,
                None => 0,
            };
            assert(seq![ranges[0].start + i, ranges[1].start + j] =~= cell_of(names, t, row, column));
        }
    }
}

/// The ranges go by the names of the dimensions: `time`, `y` and `x` each have their
/// own, and a dimension of any other name, or of none, has no range.
pub proof fn law_ranges_go_by_name(
    names: Seq<DimensionName>,
    time: Option<Range<u64>>,
    y: Range<u64>,
    x: Range<u64>,
    ranges: Seq<Range<u64>>,
    k: int,
)
    requires
        ranges_of(names, time, y, x, ranges),
        0 <= k < names.len(),
    ensures
        ranges.len() == names.len(),
        names[k] is Some,
        ({
            let name = names[k]->Some_0@;
            ||| name == "time"@ && time is Some && ranges[k] == time->Some_0
            ||| name == "y"@ && ranges[k] == y
            ||| name == "x"@ && ranges[k] == x
        }),
{
    lemma_names_differ();
    assert(range_of(names[k], time, y, x) == Some(ranges[k]));
}

/// Dimensions that are all rows, columns or a known time are never refused.
pub proof fn law_known_dimensions_are_not_refused(
    names: Seq<DimensionName>,
    time: Option<Range<u64>>,
    y: Range<u64>,
    x: Range<u64>,
    e: ZarrError,
)
    requires
        forall|k: int|
            0 <= k < names.len() ==> #[trigger] names[k] is Some && (names[k]->Some_0@ == "y"@
                || names[k]->Some_0@ == "x"@ || (names[k]->Some_0@ == "time"@ && time is Some)),
    ensures
        !first_rejection(names, time, y, x, e),
{
    lemma_names_differ();
}

/// What a plan reads along a dimension: the one time that was asked for, the rows
/// from the top of the box to its bottom, the columns from its left to its right.
pub proof fn law_plan_reads_the_box(
    plan: Retrieval,
    names: Seq<DimensionName>,
    bbox: [u64; 4],
    temporal_index: Option<u64>,
    k: int,
)
    requires
        plan.fits(names, bbox, temporal_index),
        temporal_index matches Some(t) ==> t < u64::MAX,
        bbox[1] < u64::MAX,
        bbox[2] < u64::MAX,
        0 <= k < names.len(),
    ensures
        plan.ranges@.len() == names.len(),
        names[k] is Some,
        ({
            let name = names[k]->Some_0@;
            let range = plan.ranges@[k];
            ||| name == "time"@ && temporal_index is Some && range.start == temporal_index->Some_0
                && range.end == range.start + 1
            ||| name == "y"@ && range.start == bbox[3] && range.end == bbox[1] + 1
            ||| name == "x"@ && range.start == bbox[0] && range.end == bbox[2] + 1
        }),
{
    law_ranges_go_by_name(
        names,
        time_range(temporal_index),
        row_range(bbox),
        column_range(bbox),
        plan.ranges@,
        k,
    );
}

/// The order of a plan lists the first dimension of each name: time, where there is
/// one, then rows and columns.
pub proof fn law_order_is_time_rows_columns(names: Seq<DimensionName>, perm: Seq<usize>)
    requires
        whole(perm) == dimension_order(names),
    ensures
        has_dimension(names, "y"@) && has_dimension(names, "x"@) ==> ({
            let skip = if has_dimension(names, "time"@) { 1int } else { 0int };
            &&& perm.len() == skip + 2
            &&& skip == 1 ==> first_named(names, "time"@, perm[0] as int)
            &&& first_named(names, "y"@, perm[skip] as int)
            &&& first_named(names, "x"@, perm[skip + 1] as int)
        }),
{
    if has_dimension(names, "y"@) && has_dimension(names, "x"@) {
        let y = lemma_place(names, "y"@);
        let x = lemma_place(names, "x"@);
        assert(whole(perm).len() == perm.len());
        if has_dimension(names, "time"@) {
            let t = lemma_place(names, "time"@);
            assert(whole(perm) =~= seq![t] + seq![y] + seq![x]);
            assert(whole(perm)[0] == perm[0] && whole(perm)[1] == perm[1] && whole(perm)[2] == perm[2]);
        } else {
            lemma_no_place(names, "time"@);
            assert(whole(perm) =~= seq![y] + seq![x]);
            assert(whole(perm)[0] == perm[0] && whole(perm)[1] == perm[1]);
        }
    }
}

/// Turning keeps every sample: the one that was read at the indices `i`, `j` and `k`
/// along the dimensions stands, once turned, at the index along the first listed
/// dimension, then along the second and the third.
pub proof fn law_turning_keeps_samples(plan: Retrieval, i: int, j: int, k: int)
    requires
        plan.ranges@.len() == 3,
        orders_three(plan.perm@),
    ensures
        ({
            let at = seq![i, j, k];
            let second = length(plan.ranges@[1]);
            let third = length(plan.ranges@[2]);
            let perm = plan.perm@;
            plan.turned_offset(at[perm[0] as int], at[perm[1] as int], at[perm[2] as int]) == (i * second
                + j) * third + k
        }),
        forall|axis: int|
            0 <= axis < 3 ==> ({
                let range = plan.ranges@[plan.perm@[axis] as int];
                range.start <= range.end ==> #[trigger] plan.turned_shape()[axis] == range.end
                    - range.start
            }),
        plan.turned_shape().len() == 3,
        plan.size() == plan.turned_shape()[0] * plan.turned_shape()[1] * plan.turned_shape()[2],
        forall|axis: int|
            0 <= axis < 3 && plan.ranges@[plan.perm@[axis] as int].start
                > plan.ranges@[plan.perm@[axis] as int].end ==> #[trigger] plan.turned_shape()[axis] == 0,
{
    let a = length(plan.ranges@[0]);
    let b = length(plan.ranges@[1]);
    let c = length(plan.ranges@[2]);
    assert(a * b * c == a * c * b && a * b * c == b * a * c && a * b * c == b * c * a && a * b * c == c
        * a * b && a * b * c == c * b * a) by (nonlinear_arith);
}

/// Turning keeps every sample of an array without time too, behind a first axis of
/// length one.
pub proof fn law_turning_keeps_flat_samples(plan: Retrieval, i: int, j: int)
    requires
        plan.ranges@.len() == 2,
        orders_two(plan.perm@),
    ensures
        ({
            let at = seq![i, j];
            let perm = plan.perm@;
            plan.turned_offset(0, at[perm[0] as int], at[perm[1] as int]) == i * length(plan.ranges@[1])
                + j
        }),
        plan.turned_shape().len() == 3,
        plan.turned_shape()[0] == 1,
        forall|axis: int|
            1 <= axis < 3 ==> ({
                let range = plan.ranges@[plan.perm@[axis - 1] as int];
                range.start <= range.end ==> #[trigger] plan.turned_shape()[axis] == range.end
                    - range.start
            }),
{
}

} // verus!
