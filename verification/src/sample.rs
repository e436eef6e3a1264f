//! Sampling: the value that each pixel of a tile shows.

use vstd::prelude::*;

use crate::cube::Cube;
use crate::error::ZarrError;
use crate::floats::{is_less_32, INFINITY_32, NEG_INFINITY_32};

#[allow(unused_imports)]
use crate::cube::{cube_cells, cube_shape, in_cube};
#[allow(unused_imports)]
use crate::floats::{less_32, rank_32};
#[allow(unused_imports)]
use crate::warp::{in_source, pixel_column, pixel_row, WarpGrid};

verus! {

/// A number of 64 bits read as a signed one.
pub open spec fn signed(u: u64) -> int {
    if u <= i64::MAX {
        u as int
    } else {
        u - 0x1_0000_0000_0000_0000
    }
}

/// A source index counted from `origin`; -1 stands for no index and stays.
pub open spec fn relative(index: i64, origin: u64) -> int {
    if index == -1 {
        -1
    } else {
        index - signed(origin)
    }
}

/// The column that a pixel shows, counted from the left of the box.
pub open spec fn shown_column(grid: Seq<i64>, bbox: [u64; 4], pixel: int) -> int {
    relative(pixel_column(grid, pixel), bbox[0])
}

/// The row that a pixel shows, counted from the top of the box.
pub open spec fn shown_row(grid: Seq<i64>, bbox: [u64; 4], pixel: int) -> int {
    relative(pixel_row(grid, pixel), bbox[3])
}

/// Whether a pixel shows a sample.
pub open spec fn shows(grid: Seq<i64>, bbox: [u64; 4], pixel: int) -> bool {
    shown_column(grid, bbox, pixel) != -1 && shown_row(grid, bbox, pixel) != -1
}

/// Whether the column and row of a pixel that shows a sample are indices.
pub open spec fn indexes(grid: Seq<i64>, bbox: [u64; 4], pixel: int) -> bool {
    &&& 0 <= shown_column(grid, bbox, pixel) <= usize::MAX
    &&& 0 <= shown_row(grid, bbox, pixel) <= usize::MAX
}

/// Whether sampling stops at a pixel because its column or row is no index.
pub open spec fn stops(grid: Seq<i64>, bbox: [u64; 4], pixel: int) -> bool {
    shows(grid, bbox, pixel) && !indexes(grid, bbox, pixel)
}

/// Whether a pixel can be sampled from an array with axes of these lengths: its
/// column and row are numbers of 64 bits, and lie in the array where the pixel
/// shows a sample.
pub open spec fn readable(grid: Seq<i64>, bbox: [u64; 4], shape: Seq<int>, pixel: int) -> bool {
    &&& i64::MIN <= shown_column(grid, bbox, pixel) <= i64::MAX
    &&& i64::MIN <= shown_row(grid, bbox, pixel) <= i64::MAX
    &&& shows(grid, bbox, pixel) && indexes(grid, bbox, pixel) ==> in_cube(
        shape,
        0,
        shown_row(grid, bbox, pixel),
        shown_column(grid, bbox, pixel),
    )
}

/// Whether every pixel that is reached can be sampled: sampling ends at the
/// first pixel whose column or row is no index.
pub open spec fn sampleable(
    grid: Seq<i64>,
    bbox: [u64; 4],
    shape: Seq<int>,
    tile_len: int,
) -> bool {
    &&& 2 * (tile_len * tile_len) <= grid.len()
    &&& forall|p: int|
        0 <= p < tile_len * tile_len && (forall|q: int| 0 <= q < p ==> !#[trigger] stops(grid, bbox, q))
            ==> #[trigger] readable(grid, bbox, shape, p)
}

/// The sample that a pixel shows.
pub open spec fn shown(grid: Seq<i64>, bbox: [u64; 4], data: Cube, pixel: int) -> u32 {
    cube_cells(data)[(0, shown_row(grid, bbox, pixel), shown_column(grid, bbox, pixel))]
}

/// The value of a pixel: the sample that it shows, or the fill value.
pub open spec fn pixel_value(
    grid: Seq<i64>,
    bbox: [u64; 4],
    data: Cube,
    fill_value: u32,
    pixel: int,
) -> u32 {
    if shows(grid, bbox, pixel) {
        shown(grid, bbox, data, pixel)
    } else {
        fill_value
    }
}

/// The least sample shown by the first `count` pixels, the earlier one of equal
/// samples; positive infinity where there is none.
pub open spec fn lowest(grid: Seq<i64>, bbox: [u64; 4], data: Cube, count: int) -> u32
    decreases count,
{
    if count <= 0 {
        INFINITY_32
    } else {
        let before = lowest(grid, bbox, data, count - 1);
        if shows(grid, bbox, count - 1) && less_32(shown(grid, bbox, data, count - 1), before) {
            shown(grid, bbox, data, count - 1)
        } else {
            before
        }
    }
}

/// The greatest sample shown by the first `count` pixels, the earlier one of
/// equal samples; negative infinity where there is none.
pub open spec fn highest(grid: Seq<i64>, bbox: [u64; 4], data: Cube, count: int) -> u32
    decreases count,
{
    if count <= 0 {
        NEG_INFINITY_32
    } else {
        let before = highest(grid, bbox, data, count - 1);
        if shows(grid, bbox, count - 1) && less_32(before, shown(grid, bbox, data, count - 1)) {
            shown(grid, bbox, data, count - 1)
        } else {
            before
        }
    }
}

/// The value in a column and a row of a sampled tile, which is laid out by rows.
pub open spec fn tile_value(sampled: Seq<u32>, tile_len: int, column: int, row: int) -> u32 {
    sampled[row * tile_len + column]
}

/// What is said of a column or row that is no index.
pub open spec fn cast_text() -> Seq<char> {
    "Could not cast to usize: TryFromIntError(())"@
}

/// A number of 64 bits read as a signed one.
fn cast_signed(u: u64) -> (r: i64)
    ensures
        r == signed(u),
{
    if u <= i64::MAX as u64 {
        u as i64
    } else {
        -((u64::MAX - u) as i64) - 1
    }
}

/// A source index counted from `origin`.
fn relative_index(index: i64, origin: u64) -> (r: i64)
    requires
        i64::MIN <= relative(index, origin) <= i64::MAX,
    ensures
        r == relative(index, origin),
{
    if index == -1 {
        index
    } else {
        index - cast_signed(origin)
    }
}

/// A number as an index, or the error that says it is none.
fn to_index(value: i64) -> (r: Result<usize, ZarrError>)
    ensures
        match r {
            Ok(index) => index == value,
            Err(e) => !(0 <= value <= usize::MAX) && e.is_cast_error(cast_text()),
        },
{
    if value >= 0 && value as u64 <= usize::MAX as u64 {
        Ok(value as usize)
    } else {
        Err(ZarrError::CastError("Could not cast to usize: TryFromIntError(())".to_owned()))
    }
}

/// Samples the data at the points of a warp grid: the values of the pixels, and
/// the least and the greatest sample among them.
///
/// `warp_grid` goes through the columns of the tile, the result through its
/// rows: the value of the pixel in column `i` and row `j` is at
/// `j * tile_len + i`. A pixel that shows no sample keeps the fill value, which
/// takes no part in the least and the greatest.
pub fn sample_warp_grid(
    warp_grid: &Vec<i64>,
    warp_grid_bbox: [u64; 4],
    tile_data: &Cube,
    tile_len: u32,
    fill_value: u32,
) -> (r: Result<(Vec<u32>, u32, u32), ZarrError>)
    requires
        sampleable(warp_grid@, warp_grid_bbox, cube_shape(*tile_data), tile_len as int),
    ensures
        match r {
            Ok((sampled, min, max)) => {
                &&& forall|p: int|
                    0 <= p < tile_len * tile_len ==> !#[trigger] stops(warp_grid@, warp_grid_bbox, p)
                &&& sampled@.len() == tile_len * tile_len
                &&& forall|i: int, j: int|
                    0 <= i < tile_len && 0 <= j < tile_len ==> #[trigger] tile_value(
                        sampled@,
                        tile_len as int,
                        i,
                        j,
                    ) == pixel_value(
                        warp_grid@,
                        warp_grid_bbox,
                        *tile_data,
                        fill_value,
                        i * tile_len + j,
                    )
                &&& min == lowest(warp_grid@, warp_grid_bbox, *tile_data, tile_len * tile_len)
                &&& max == highest(warp_grid@, warp_grid_bbox, *tile_data, tile_len * tile_len)
            },
            Err(e) => {
                &&& exists|p: int|
                    0 <= p < tile_len * tile_len && #[trigger] stops(warp_grid@, warp_grid_bbox, p)
                &&& e.is_cast_error(cast_text())
            },
        },
{
    let mut min: u32 = INFINITY_32;
    let mut max: u32 = NEG_INFINITY_32;
    let n: usize = tile_len as usize;
    let total: usize = warp_grid.len();
    proof {
        lemma_square(n as int, total as int);
    }
    let mut sampled: Vec<u32> = vec![fill_value; n * n];
    let ghost grid = warp_grid@;
    let ghost shape = cube_shape(*tile_data);
    proof {
        assert forall|a: int, b: int| 0 <= a < n && 0 <= b < n implies #[trigger] tile_value(
            sampled@,
            n as int,
            a,
            b,
        ) == fill_value by {
            lemma_offset(n as int, a, b);
        }
        assert(0 * n == 0) by (nonlinear_arith);
    }

    for i in 0..n
        invariant
            n == tile_len,
            total == warp_grid@.len(),
            2 * (n * n) <= total,
            grid == warp_grid@,
            shape == cube_shape(*tile_data),
            sampleable(grid, warp_grid_bbox, shape, n as int),
            sampled@.len() == n * n,
            forall|q: int| 0 <= q < i * n ==> !#[trigger] stops(grid, warp_grid_bbox, q),
            forall|a: int, b: int|
                0 <= a < n && 0 <= b < n ==> #[trigger] tile_value(sampled@, n as int, a, b) == (
                if a < i {
                    pixel_value(grid, warp_grid_bbox, *tile_data, fill_value, a * n + b)
                } else {
                    fill_value
                }),
            min == lowest(grid, warp_grid_bbox, *tile_data, i * n),
            max == highest(grid, warp_grid_bbox, *tile_data, i * n),
    {
        for j in 0..n
            invariant
                i < n,
                n == tile_len,
                total == warp_grid@.len(),
                2 * (n * n) <= total,
                grid == warp_grid@,
                shape == cube_shape(*tile_data),
                sampleable(grid, warp_grid_bbox, shape, n as int),
                sampled@.len() == n * n,
                forall|q: int| 0 <= q < i * n + j ==> !#[trigger] stops(grid, warp_grid_bbox, q),
                forall|a: int, b: int|
                    0 <= a < n && 0 <= b < n ==> #[trigger] tile_value(sampled@, n as int, a, b)
                        == (if a < i || (a == i && b < j) {
                        pixel_value(grid, warp_grid_bbox, *tile_data, fill_value, a * n + b)
                    } else {
                        fill_value
                    }),
                min == lowest(grid, warp_grid_bbox, *tile_data, i * n + j),
                max == highest(grid, warp_grid_bbox, *tile_data, i * n + j),
        {
            proof {
                lemma_offset(n as int, j as int, i as int);
                lemma_offset(n as int, i as int, j as int);
                assert(readable(grid, warp_grid_bbox, shape, i * n + j));
            }
            let idx: usize = 2 * (i * n + j);
            let right = warp_grid[idx];
            let down = warp_grid[idx + 1];

            // map to relative indices
            let rel_right = relative_index(right, warp_grid_bbox[0]);
            let rel_down = relative_index(down, warp_grid_bbox[3]);

            let ghost before = sampled@;
            if rel_right != -1 && rel_down != -1 {
                let row = match to_index(rel_down) {
                    Ok(index) => index,
                    Err(e) => {
                        proof {
                            assert(stops(grid, warp_grid_bbox, i * n + j));
                        }
                        return Err(e);
                    },
                };
                let column = match to_index(rel_right) {
                    Ok(index) => index,
                    Err(e) => {
                        proof {
                            assert(stops(grid, warp_grid_bbox, i * n + j));
                        }
                        return Err(e);
                    },
                };
                let value = tile_data.cell(0, row, column);
                if is_less_32(value, min) {
                    min = value;
                }
                if is_less_32(max, value) {
                    max = value;
                }
                sampled.set(j * n + i, value);
            }
            proof {
                assert forall|a: int, b: int| 0 <= a < n && 0 <= b < n implies #[trigger] tile_value(
                    sampled@,
                    n as int,
                    a,
                    b,
                ) == (if a < i || (a == i && b < j + 1) {
                    pixel_value(grid, warp_grid_bbox, *tile_data, fill_value, a * n + b)
                } else {
                    fill_value
                }) by {
                    lemma_offset(n as int, a, b);
                    lemma_offset_unique(n as int, a, b, i as int, j as int);
                    assert(tile_value(before, n as int, a, b) == before[b * n + a]);
                }
            }
        }
        assert((i + 1) * n == i * n + n) by (nonlinear_arith);
    }
    Ok((sampled, min, max))
}

/// Whether the pixels of a tile can be sampled from an array: that the array
/// holds the sample of every pixel that is reached.
pub fn can_sample(
    warp_grid: &Vec<i64>,
    warp_grid_bbox: [u64; 4],
    tile_data: &Cube,
    tile_len: u32,
) -> (r: bool)
    ensures
        r <==> sampleable(warp_grid@, warp_grid_bbox, cube_shape(*tile_data), tile_len as int),
{
    let total: usize = warp_grid.len();
    assert(0 <= tile_len * tile_len <= u64::MAX) by (nonlinear_arith);
    let pixels: u64 = tile_len as u64 * tile_len as u64;
    if pixels > (total / 2) as u64 {
        return false;
    }
    let shape = tile_data.shape();
    let ghost grid = warp_grid@;
    let ghost lengths = cube_shape(*tile_data);
    for p in 0..pixels as usize
        invariant
            pixels == tile_len * tile_len,
            pixels <= total / 2,
            total == warp_grid@.len(),
            grid == warp_grid@,
            lengths == cube_shape(*tile_data),
            lengths == seq![shape[0] as int, shape[1] as int, shape[2] as int],
            forall|q: int| 0 <= q < p ==> !#[trigger] stops(grid, warp_grid_bbox, q),
            forall|q: int| 0 <= q < p ==> #[trigger] readable(grid, warp_grid_bbox, lengths, q),
    {
        let column = wide_relative(warp_grid[2 * p], warp_grid_bbox[0]);
        let row = wide_relative(warp_grid[2 * p + 1], warp_grid_bbox[3]);
        let fits = i64::MIN as i128 <= column && column <= i64::MAX as i128 && i64::MIN as i128
            <= row && row <= i64::MAX as i128;
        let shows_sample = column != -1 && row != -1;
        let are_indices = 0 <= column && column <= usize::MAX as i128 && 0 <= row && row
            <= usize::MAX as i128;
        let inside = 0 < shape[0] && 0 <= row && row < shape[1] as i128 && 0 <= column && column
            < shape[2] as i128;
        if !fits || (shows_sample && are_indices && !inside) {
            assert(!readable(grid, warp_grid_bbox, lengths, p as int));
            return false;
        }
        if shows_sample && !are_indices {
            proof {
                assert(stops(grid, warp_grid_bbox, p as int));
                assert(readable(grid, warp_grid_bbox, lengths, p as int));
                assert forall|m: int|
                    0 <= m < pixels && (forall|q: int|
                        0 <= q < m ==> !#[trigger] stops(
                            grid,
                            warp_grid_bbox,
                            q,
                        )) implies #[trigger] readable(grid, warp_grid_bbox, lengths, m) by {
                    assert(m <= p);
                }
            }
            return true;
        }
    }
    true
}

/// A source index counted from `origin`.
fn wide_relative(index: i64, origin: u64) -> (r: i128)
    ensures
        r == relative(index, origin),
{
    if index == -1 {
        -1
    } else {
        index as i128 - cast_signed(origin) as i128
    }
}

/// Whether a pixel shows a sample that is a number.
pub open spec fn shows_number(grid: Seq<i64>, bbox: [u64; 4], data: Cube, pixel: int) -> bool {
    shows(grid, bbox, pixel) && rank_32(shown(grid, bbox, data, pixel)) is Some
}

/// The least sample is a number, and none that a pixel shows is less. Wherever a
/// pixel shows a number, it is the sample of one of the pixels; else it is positive
/// infinity.
pub proof fn law_lowest_is_least(grid: Seq<i64>, bbox: [u64; 4], data: Cube, count: int)
    ensures
        rank_32(lowest(grid, bbox, data, count)) is Some,
        forall|p: int|
            0 <= p < count && #[trigger] shows(grid, bbox, p) ==> !less_32(
                shown(grid, bbox, data, p),
                lowest(grid, bbox, data, count),
            ),
        if exists|p: int| 0 <= p < count && #[trigger] shows_number(grid, bbox, data, p) {
            exists|p: int|
                0 <= p < count && #[trigger] shows_number(grid, bbox, data, p) && shown(
                    grid,
                    bbox,
                    data,
                    p,
                ) == lowest(grid, bbox, data, count)
        } else {
            lowest(grid, bbox, data, count) == INFINITY_32
        },
    decreases count,
{
    if count > 0 {
        law_lowest_is_least(grid, bbox, data, count - 1);
        let last = count - 1;
        let before = lowest(grid, bbox, data, last);
        if shows(grid, bbox, last) && less_32(shown(grid, bbox, data, last), before) {
            assert(shows_number(grid, bbox, data, last));
        } else if exists|p: int| 0 <= p < last && #[trigger] shows_number(grid, bbox, data, p) {
            let p = choose|p: int|
                0 <= p < last && #[trigger] shows_number(grid, bbox, data, p) && shown(
                    grid,
                    bbox,
                    data,
                    p,
                ) == before;
            assert(shows_number(grid, bbox, data, p));
        } else if shows_number(grid, bbox, data, last) {
            assert(shown(grid, bbox, data, last) == before);
        }
    }
}

/// The greatest sample is a number, and none that a pixel shows is greater. Wherever
/// a pixel shows a number, it is the sample of one of the pixels; else it is
/// negative infinity.
pub proof fn law_highest_is_greatest(grid: Seq<i64>, bbox: [u64; 4], data: Cube, count: int)
    ensures
        rank_32(highest(grid, bbox, data, count)) is Some,
        forall|p: int|
            0 <= p < count && #[trigger] shows(grid, bbox, p) ==> !less_32(
                highest(grid, bbox, data, count),
                shown(grid, bbox, data, p),
            ),
        if exists|p: int| 0 <= p < count && #[trigger] shows_number(grid, bbox, data, p) {
            exists|p: int|
                0 <= p < count && #[trigger] shows_number(grid, bbox, data, p) && shown(
                    grid,
                    bbox,
                    data,
                    p,
                ) == highest(grid, bbox, data, count)
        } else {
            highest(grid, bbox, data, count) == NEG_INFINITY_32
        },
    decreases count,
{
    if count > 0 {
        law_highest_is_greatest(grid, bbox, data, count - 1);
        let last = count - 1;
        let before = highest(grid, bbox, data, last);
        if shows(grid, bbox, last) && less_32(before, shown(grid, bbox, data, last)) {
            assert(shows_number(grid, bbox, data, last));
        } else if exists|p: int| 0 <= p < last && #[trigger] shows_number(grid, bbox, data, p) {
            let p = choose|p: int|
                0 <= p < last && #[trigger] shows_number(grid, bbox, data, p) && shown(
                    grid,
                    bbox,
                    data,
                    p,
                ) == before;
            assert(shows_number(grid, bbox, data, p));
        } else if shows_number(grid, bbox, data, last) {
            assert(shown(grid, bbox, data, last) == before);
        }
    }
}

/// The samples of the window that a warp grid spans are all that sampling the
/// grid needs: an array over the rows and columns of its box, under a first
/// axis that is not empty, lets every pixel be sampled, and the pixels that show
/// a sample are those that lie in the source.
pub proof fn law_window_covers_grid(grid: WarpGrid, shape: Seq<int>, tile_len: int)
    requires
        grid.wf(tile_len),
        shape.len() == 3,
        shape[0] > 0,
        shape[1] == grid.bbox[1] - grid.bbox[3] + 1,
        shape[2] == grid.bbox[2] - grid.bbox[0] + 1,
        shape[1] <= usize::MAX,
        shape[2] <= usize::MAX,
    ensures
        sampleable(grid.indices@, grid.bbox, shape, tile_len),
        forall|p: int|
            0 <= p < tile_len * tile_len ==> {
                &&& !#[trigger] stops(grid.indices@, grid.bbox, p)
                &&& shows(grid.indices@, grid.bbox, p) <==> in_source(grid.indices@, p)
            },
{
    let n = tile_len * tile_len;
    let indices = grid.indices@;
    let bbox = grid.bbox;
    let l = choose|p: int| 0 <= p < n && #[trigger] in_source(indices, p) && pixel_column(indices, p)
        == bbox[0];
    let t = choose|p: int| 0 <= p < n && #[trigger] in_source(indices, p) && pixel_row(indices, p)
        == bbox[3];
    assert(0 <= l < n && 0 <= t < n);
    assert(signed(bbox[0]) == bbox[0] && signed(bbox[3]) == bbox[3]);
    assert forall|p: int| 0 <= p < n implies {
        &&& !#[trigger] stops(indices, bbox, p)
        &&& shows(indices, bbox, p) <==> in_source(indices, p)
        &&& readable(indices, bbox, shape, p)
    } by {
        assert(indices[2 * p] >= -1 && indices[2 * p + 1] >= -1);
        if in_source(indices, p) {
            assert(bbox[0] <= pixel_column(indices, p) <= bbox[2]);
        }
    }
    assert forall|p: int|
        0 <= p < n && (forall|q: int| 0 <= q < p ==> !#[trigger] stops(indices, bbox, q)) implies #[trigger] readable(
        indices,
        bbox,
        shape,
        p,
    ) by {
        assert(!stops(indices, bbox, p));
    }
}

/// A square and its double are bounded by a bound on the double.
proof fn lemma_square(n: int, total: int)
    requires
        0 <= n,
        2 * (n * n) <= total,
    ensures
        0 <= n * n <= total,
{
    assert(0 <= n * n) by (nonlinear_arith)
        requires
            0 <= n,
    ;
}

/// A pixel of a square tile lies inside it.
proof fn lemma_offset(n: int, a: int, b: int)
    requires
        0 <= a < n,
        0 <= b < n,
    ensures
        0 <= b * n + a < n * n,
        0 <= b * n,
{
    assert(0 <= b * n && b * n + a < n * n) by (nonlinear_arith)
        requires
            0 <= a < n,
            0 <= b < n,
    ;
}

/// Different pixels of a tile lie at different places.
proof fn lemma_offset_unique(n: int, a: int, b: int, i: int, j: int)
    requires
        0 <= a < n,
        0 <= i < n,
    ensures
        b * n + a == j * n + i ==> a == i && b == j,
{
    if b < j {
        assert(b * n + n <= j * n) by (nonlinear_arith)
            requires
                b + 1 <= j,
                0 < n,
        ;
    } else if b > j {
        assert(j * n + n <= b * n) by (nonlinear_arith)
            requires
                j + 1 <= b,
                0 < n,
        ;
    }
}

/// A pixel shows the sample of its column and its row, counted from the left and the
/// top of the box, and the fill value where either is -1. An index right before the
/// box stands for no index too, and one further before it stops the sampling.
pub proof fn law_pixel_is_its_sample(
    grid: Seq<i64>,
    bbox: [u64; 4],
    data: Cube,
    fill_value: u32,
    pixel: int,
)
    requires
        bbox[0] <= i64::MAX,
        bbox[3] <= i64::MAX,
    ensures
        ({
            let column = grid[2 * pixel] as int;
            let row = grid[2 * pixel + 1] as int;
            let left = bbox[0] as int;
            let top = bbox[3] as int;
            let none = column == -1 || row == -1 || column == left - 1 || row == top - 1;
            &&& pixel_value(grid, bbox, data, fill_value, pixel) == (if none {
                fill_value
            } else {
                cube_cells(data)[(0, row - top, column - left)]
            })
            &&& stops(grid, bbox, pixel) <==> !none && (column < left || row < top || column - left
                > usize::MAX || row - top > usize::MAX)
        }),
{
}

/// The tile is laid out by rows: the value in column `i` and row `j` stands at
/// `j * n + i`, so a row further is `n` values further, and a column one.
pub proof fn law_tile_is_laid_out_by_rows(sampled: Seq<u32>, n: int, i: int, j: int)
    ensures
        tile_value(sampled, n, i, j) == sampled[j * n + i],
{
}

/// The sample that a pixel shows lies between the least and the greatest one, and
/// where it is a number they both are samples of pixels, as numbers.
pub proof fn law_samples_lie_in_their_range(
    grid: Seq<i64>,
    bbox: [u64; 4],
    data: Cube,
    count: int,
    pixel: int,
) -> (r: (int, int))
    requires
        bbox[0] <= i64::MAX,
        bbox[3] <= i64::MAX,
        0 <= pixel < count,
        grid[2 * pixel] >= bbox[0],
        grid[2 * pixel + 1] >= bbox[3],
    ensures
        ({
            let left = bbox[0] as int;
            let top = bbox[3] as int;
            let sample = cube_cells(data)[(0, grid[2 * pixel + 1] - top, grid[2 * pixel] - left)];
            let least = lowest(grid, bbox, data, count);
            let greatest = highest(grid, bbox, data, count);
            &&& !less_32(sample, least)
            &&& !less_32(greatest, sample)
            &&& sample as int % 0x8000_0000 <= 0x7f80_0000 ==> {
                &&& !less_32(greatest, least)
                &&& 0 <= r.0 < count && 0 <= r.1 < count
                &&& least == cube_cells(data)[(0, grid[2 * r.0 + 1] - top, grid[2 * r.0] - left)]
                &&& greatest == cube_cells(data)[(0, grid[2 * r.1 + 1] - top, grid[2 * r.1] - left)]
            }
        }),
{
    law_lowest_is_least(grid, bbox, data, count);
    law_highest_is_greatest(grid, bbox, data, count);
    assert(shows(grid, bbox, pixel));
    if shows_number(grid, bbox, data, pixel) {
        let p = choose|p: int|
            0 <= p < count && #[trigger] shows_number(grid, bbox, data, p) && shown(
                grid,
                bbox,
                data,
                p,
            ) == lowest(grid, bbox, data, count);
        let q = choose|p: int|
            0 <= p < count && #[trigger] shows_number(grid, bbox, data, p) && shown(
                grid,
                bbox,
                data,
                p,
            ) == highest(grid, bbox, data, count);
        (p, q)
    } else {
        (0, 0)
    }
}

/// Pixels that all show no sample, or one that is in the array, can be sampled, and
/// none stops the sampling.
pub proof fn law_samples_in_the_array_can_be_sampled(
    grid: Seq<i64>,
    bbox: [u64; 4],
    shape: Seq<int>,
    tile_len: int,
)
    requires
        bbox[0] <= i64::MAX,
        bbox[3] <= i64::MAX,
        2 * (tile_len * tile_len) <= grid.len(),
        shape.len() == 3,
        shape[0] > 0,
        shape[1] <= usize::MAX,
        shape[2] <= usize::MAX,
        forall|p: int|
            #![trigger readable(grid, bbox, shape, p)]
            0 <= p < tile_len * tile_len ==> {
                ||| grid[2 * p] == -1 && grid[2 * p + 1] == -1
                ||| 0 <= grid[2 * p] - bbox[0] < shape[2] && 0 <= grid[2 * p + 1] - bbox[3] < shape[1]
            },
    ensures
        sampleable(grid, bbox, shape, tile_len),
        forall|p: int| 0 <= p < tile_len * tile_len ==> !#[trigger] stops(grid, bbox, p),
{
    assert forall|p: int| 0 <= p < tile_len * tile_len implies #[trigger] readable(
        grid,
        bbox,
        shape,
        p,
    ) by {}
    assert forall|p: int| 0 <= p < tile_len * tile_len implies !#[trigger] stops(grid, bbox, p) by {
        assert(readable(grid, bbox, shape, p));
    }
}

/// Where a tile can be sampled, every sample that its pixels show up to the first that
/// stops the sampling is in the array.
pub proof fn law_sampled_pixels_are_in_the_array(
    grid: Seq<i64>,
    bbox: [u64; 4],
    shape: Seq<int>,
    tile_len: int,
    pixel: int,
)
    requires
        bbox[0] <= i64::MAX,
        bbox[3] <= i64::MAX,
        sampleable(grid, bbox, shape, tile_len),
        0 <= pixel < tile_len * tile_len,
        forall|q: int| 0 <= q < pixel ==> !#[trigger] stops(grid, bbox, q),
        0 <= grid[2 * pixel] - bbox[0] <= usize::MAX,
        0 <= grid[2 * pixel + 1] - bbox[3] <= usize::MAX,
    ensures
        0 < shape[0],
        grid[2 * pixel] - bbox[0] < shape[2],
        grid[2 * pixel + 1] - bbox[3] < shape[1],
{
    assert(readable(grid, bbox, shape, pixel));
}

} // verus!
