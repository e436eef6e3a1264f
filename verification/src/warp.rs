//! The warp grid: which cell of the source each pixel of a tile shows.

use vstd::prelude::*;

verus! {

/// The side of a tile, in pixels.
pub const TILE_PIXELS: u32 = 512;

/// Which cell of the source each pixel of a tile shows.
///
/// Pixel `(i, j)`, the `i`-th column from the left and the `j`-th row from the
/// bottom of a tile with side `n`, has its column in the source at
/// `2 * (i * n + j)` and its row right behind it. Either is -1 where the pixel
/// lies outside the source.
#[derive(Clone, Debug, PartialEq, Eq)]
pub struct WarpGrid {
    /// Columns and rows in the source, pixel by pixel.
    pub indices: Vec<i64>,
    /// The least column, greatest row, greatest column and least row of the
    /// pixels that lie in the source.
    pub bbox: [u64; 4],
}

/// The index of a cell along an axis of `size` cells, for a position counted in
/// cells; -1 outside the axis or where there is no position at all.
pub open spec fn cell_index(position: Option<i128>, size: u128) -> int {
    match position {
        Some(p) => if 0 <= p < size {
            if p > i64::MAX { i64::MAX as int } else { p as int }
        } else {
            -1
        },
        None => -1,
    }
}

/// The column of the source that a pixel shows.
pub open spec fn pixel_column(indices: Seq<i64>, pixel: int) -> i64 {
    indices[2 * pixel]
}

/// The row of the source that a pixel shows.
pub open spec fn pixel_row(indices: Seq<i64>, pixel: int) -> i64 {
    indices[2 * pixel + 1]
}

/// Whether a pixel lies in the source.
pub open spec fn in_source(indices: Seq<i64>, pixel: int) -> bool {
    pixel_column(indices, pixel) >= 0 && pixel_row(indices, pixel) >= 0
}

/// The indices that positions (columns and rows in turn) stand for in a source
/// of `shape` (height and width).
pub open spec fn located(positions: Seq<Option<i128>>, shape: [u128; 2], indices: Seq<i64>) -> bool {
    &&& indices.len() == positions.len()
    &&& forall|k: int| 0 <= k < indices.len() ==> #[trigger] indices[k] == cell_index(
        positions[k],
        if k % 2 == 0 { shape[1] } else { shape[0] },
    )
}

/// Whether the positions of a pixel lie in a source of `shape`.
pub open spec fn shows_source(positions: Seq<Option<i128>>, shape: [u128; 2], pixel: int) -> bool {
    &&& cell_index(positions[2 * pixel], shape[1]) >= 0
    &&& cell_index(positions[2 * pixel + 1], shape[0]) >= 0
}

/// Whether the box is the least round those of the first `count` pixels that lie
/// in the source: they all lie inside, and each side is touched by one of them.
pub open spec fn bounds(
    indices: Seq<i64>,
    count: int,
    left: int,
    bottom: int,
    right: int,
    top: int,
) -> bool {
    &&& forall|p: int| 0 <= p < count && #[trigger] in_source(indices, p) ==> {
        &&& left <= pixel_column(indices, p) <= right
        &&& top <= pixel_row(indices, p) <= bottom
    }
    &&& exists|p: int| 0 <= p < count && #[trigger] in_source(indices, p)
        && pixel_column(indices, p) == left
    &&& exists|p: int| 0 <= p < count && #[trigger] in_source(indices, p)
        && pixel_row(indices, p) == bottom
    &&& exists|p: int| 0 <= p < count && #[trigger] in_source(indices, p)
        && pixel_column(indices, p) == right
    &&& exists|p: int| 0 <= p < count && #[trigger] in_source(indices, p)
        && pixel_row(indices, p) == top
}

/// The box round the pixels in the source grows with a pixel more.
proof fn lemma_bounds_grow(
    indices: Seq<i64>,
    longer: Seq<i64>,
    count: int,
    left: int,
    bottom: int,
    right: int,
    top: int,
)
    requires
        0 <= count,
        indices.len() == 2 * count,
        longer.len() == 2 * count + 2,
        indices == longer.subrange(0, 2 * count),
        bounds(indices, count, left, bottom, right, top),
    ensures
        !in_source(longer, count) ==> bounds(longer, count + 1, left, bottom, right, top),
        in_source(longer, count) ==> bounds(
            longer,
            count + 1,
            if left <= pixel_column(longer, count) { left } else { pixel_column(longer, count) as int },
            if bottom >= pixel_row(longer, count) { bottom } else { pixel_row(longer, count) as int },
            if right >= pixel_column(longer, count) { right } else { pixel_column(longer, count) as int },
            if top <= pixel_row(longer, count) { top } else { pixel_row(longer, count) as int },
        ),
{
    assert forall|p: int| 0 <= p < count implies #[trigger] in_source(longer, p) == in_source(indices, p)
        && pixel_column(longer, p) == pixel_column(indices, p) && pixel_row(longer, p) == pixel_row(
        indices,
        p,
    ) by {
        assert(longer[2 * p] == indices[2 * p]);
        assert(longer[2 * p + 1] == indices[2 * p + 1]);
    }
    let l = choose|p: int| 0 <= p < count && #[trigger] in_source(indices, p)
        && pixel_column(indices, p) == left;
    let b = choose|p: int| 0 <= p < count && #[trigger] in_source(indices, p)
        && pixel_row(indices, p) == bottom;
    let r = choose|p: int| 0 <= p < count && #[trigger] in_source(indices, p)
        && pixel_column(indices, p) == right;
    let t = choose|p: int| 0 <= p < count && #[trigger] in_source(indices, p)
        && pixel_row(indices, p) == top;
    assert(in_source(longer, l) && in_source(longer, b) && in_source(longer, r) && in_source(longer, t));
}

impl WarpGrid {
    /// A grid for a tile with side `tile_len`: a pair of indices, or of -1, for
    /// each pixel, and the least box round the pixels in the source.
    pub open spec fn wf(self, tile_len: int) -> bool {
        &&& self.indices@.len() == 2 * (tile_len * tile_len)
        &&& forall|k: int| 0 <= k < self.indices@.len() ==> #[trigger] self.indices@[k] >= -1
        &&& bounds(
            self.indices@,
            tile_len * tile_len,
            self.bbox[0] as int,
            self.bbox[1] as int,
            self.bbox[2] as int,
            self.bbox[3] as int,
        )
    }
}

/// The index of a cell along an axis of `size` cells, or -1 outside it.
pub fn source_index(position: Option<i128>, size: u128) -> (r: i64)
    ensures
        r == cell_index(position, size),
        position matches Some(p) ==> {
            &&& 0 <= p < size && p <= i64::MAX ==> r == p
            &&& 0 <= p < size && p > i64::MAX ==> r == i64::MAX
            &&& !(0 <= p < size) ==> r == -1
        },
        position is None ==> r == -1,
{
    match position {
        Some(p) => {
            if p >= 0 && (p as u128) < size {
                if p > i64::MAX as i128 {
                    i64::MAX
                } else {
                    p as i64
                }
            } else {
                -1
            }
        },
        None => -1,
    }
}

/// The least of two numbers.
fn least(a: i64, b: i64) -> (r: i64)
    ensures
        r == (if a <= b { a } else { b }),
{
    if a <= b {
        a
    } else {
        b
    }
}

/// The greatest of two numbers.
fn greatest(a: i64, b: i64) -> (r: i64)
    ensures
        r == (if a >= b { a } else { b }),
{
    if a >= b {
        a
    } else {
        b
    }
}

/// The warp grid of a tile with side `tile_len`, from the positions of its
/// pixels in a source of `src_shape` (height and width).
///
/// A position is counted in cells; there is none where the projection gives no
/// number. `None` comes back for a tile that lies outside the source.
pub fn calculate_warp_grid_for_bbox(
    positions: &Vec<Option<i128>>,
    src_shape: [u128; 2],
    tile_len: u32,
) -> (r: Option<WarpGrid>)
    requires
        positions@.len() == 2 * (tile_len * tile_len),
        2 * (tile_len * tile_len) <= u32::MAX,
    ensures
        match r {
            Some(grid) => located(positions@, src_shape, grid.indices@)
                && grid.wf(tile_len as int),
            None => forall|p: int|
                0 <= p < tile_len * tile_len ==> !#[trigger] shows_source(positions@, src_shape, p),
        },
{
    let mut src_indices: Vec<i64> = Vec::new();
    let mut left: i64 = i64::MAX;
    let mut right_most: i64 = i64::MIN;
    let mut bottom: i64 = i64::MIN;
    let mut top: i64 = i64::MAX;
    let mut has_valid_pixel = false;

    let total: usize = positions.len();
    let pixels: usize = total / 2;
    for p in 0..pixels
        invariant
            pixels == tile_len * tile_len,
            total == 2 * pixels,
            positions@.len() == total,
            src_indices@.len() == 2 * p,
            forall|k: int|
                0 <= k < src_indices@.len() ==> #[trigger] src_indices@[k] == cell_index(
                    positions@[k],
                    if k % 2 == 0 { src_shape[1] } else { src_shape[0] },
                ),
            !has_valid_pixel ==> forall|q: int|
                0 <= q < p ==> !#[trigger] in_source(src_indices@, q),
            !has_valid_pixel ==> left == i64::MAX && right_most == i64::MIN && bottom == i64::MIN
                && top == i64::MAX,
            has_valid_pixel ==> left >= 0 && right_most >= 0 && bottom >= 0 && top >= 0,
            has_valid_pixel ==> bounds(
                src_indices@,
                p as int,
                left as int,
                bottom as int,
                right_most as int,
                top as int,
            ),
    {
        let ghost before = src_indices@;
        let right = source_index(positions[2 * p], src_shape[1]);
        let down = source_index(positions[2 * p + 1], src_shape[0]);

        proof {
            let longer = before.push(right).push(down);
            assert(before =~= longer.subrange(0, 2 * p));
            assert forall|q: int| 0 <= q < p implies #[trigger] in_source(longer, q) == in_source(
                before,
                q,
            ) by {
                assert(longer[2 * q] == before[2 * q]);
                assert(longer[2 * q + 1] == before[2 * q + 1]);
            }
            assert(in_source(longer, p as int) <==> right >= 0 && down >= 0);
            if has_valid_pixel {
                lemma_bounds_grow(
                    before,
                    longer,
                    p as int,
                    left as int,
                    bottom as int,
                    right_most as int,
                    top as int,
                );
            }
        }
        if right >= 0 && down >= 0 {
            has_valid_pixel = true;
            left = least(left, right);
            right_most = greatest(right_most, right);
            top = least(top, down);
            bottom = greatest(bottom, down);
        }
        src_indices.push(right);
        src_indices.push(down);
    }

    if !has_valid_pixel {
        proof {
            assert forall|p: int| 0 <= p < pixels implies !#[trigger] shows_source(
                positions@,
                src_shape,
                p,
            ) by {
                assert(!in_source(src_indices@, p));
                assert(src_indices@[2 * p] == cell_index(positions@[2 * p], src_shape[1]));
                assert(src_indices@[2 * p + 1] == cell_index(positions@[2 * p + 1], src_shape[0]));
            }
        }
        return None;
    }
    Some(
        WarpGrid {
            indices: src_indices,
            bbox: [left as u64, bottom as u64, right_most as u64, top as u64],
        },
    )
}

/// A pixel shows the cell that it lies in. `shape` is the height and the width of the
/// source: columns are held against its width, rows against its height, and what
/// lies outside is -1. The box holds every pixel that lies in the source.
pub proof fn law_pixel_shows_the_cell_it_lies_in(
    positions: Seq<Option<i128>>,
    shape: [u128; 2],
    grid: WarpGrid,
    tile_len: int,
    pixel: int,
)
    requires
        located(positions, shape, grid.indices@),
        grid.wf(tile_len),
        0 <= pixel < tile_len * tile_len,
    ensures
        grid.indices@.len() == positions.len(),
        positions.len() == 2 * (tile_len * tile_len),
        ({
            let height = shape[0] as int;
            let width = shape[1] as int;
            let column = grid.indices@[2 * pixel] as int;
            let row = grid.indices@[2 * pixel + 1] as int;
            &&& -1 <= column < width
            &&& -1 <= row < height
            &&& positions[2 * pixel] matches Some(x) ==> {
                &&& 0 <= x < width && x <= i64::MAX ==> column == x
                &&& 0 <= x < width && x > i64::MAX ==> column == i64::MAX
                &&& !(0 <= x < width) ==> column == -1
            }
            &&& positions[2 * pixel] is None ==> column == -1
            &&& positions[2 * pixel + 1] matches Some(y) ==> {
                &&& 0 <= y < height && y <= i64::MAX ==> row == y
                &&& 0 <= y < height && y > i64::MAX ==> row == i64::MAX
                &&& !(0 <= y < height) ==> row == -1
            }
            &&& positions[2 * pixel + 1] is None ==> row == -1
            &&& column >= 0 && row >= 0 ==> {
                &&& grid.bbox[0] <= column <= grid.bbox[2]
                &&& grid.bbox[3] <= row <= grid.bbox[1]
            }
        }),
{
    let indices = grid.indices@;
    assert((2 * pixel) % 2 == 0 && (2 * pixel + 1) % 2 == 1);
    assert(indices[2 * pixel] == cell_index(positions[2 * pixel], shape[1]));
    assert(indices[2 * pixel + 1] == cell_index(positions[2 * pixel + 1], shape[0]));
    assert(in_source(indices, pixel) <==> indices[2 * pixel] >= 0 && indices[2 * pixel + 1] >= 0);
}

/// The box is no wider or higher than it must be: each of its sides, left, bottom,
/// right and top, is the column or the row of a pixel in the source.
pub proof fn law_box_is_touched_on_each_side(grid: WarpGrid, tile_len: int) -> (r: (
    int,
    int,
    int,
    int,
))
    requires
        grid.wf(tile_len),
    ensures
        forall|p: int|
            p == r.0 || p == r.1 || p == r.2 || p == r.3 ==> 0 <= p < tile_len * tile_len
                && grid.indices@[2 * p] >= 0 && #[trigger] grid.indices@[2 * p + 1] >= 0,
        grid.indices@[2 * r.0] == grid.bbox[0],
        grid.indices@[2 * r.1 + 1] == grid.bbox[1],
        grid.indices@[2 * r.2] == grid.bbox[2],
        grid.indices@[2 * r.3 + 1] == grid.bbox[3],
{
    let n = tile_len * tile_len;
    let g = grid.indices@;
    let l = choose|p: int| 0 <= p < n && #[trigger] in_source(g, p) && pixel_column(g, p)
        == grid.bbox[0] as int;
    let b = choose|p: int| 0 <= p < n && #[trigger] in_source(g, p) && pixel_row(g, p)
        == grid.bbox[1] as int;
    let r = choose|p: int| 0 <= p < n && #[trigger] in_source(g, p) && pixel_column(g, p)
        == grid.bbox[2] as int;
    let t = choose|p: int| 0 <= p < n && #[trigger] in_source(g, p) && pixel_row(g, p)
        == grid.bbox[3] as int;
    assert(in_source(g, l) && in_source(g, b) && in_source(g, r) && in_source(g, t));
    (l, b, r, t)
}

/// A tile has a warp grid as soon as one of its pixels lies in the source: a pixel
/// counts as outside exactly where its column is none of the width of the source, or
/// its row none of the height.
pub proof fn law_pixel_in_the_source_is_seen(
    positions: Seq<Option<i128>>,
    shape: [u128; 2],
    pixel: int,
)
    ensures
        shows_source(positions, shape, pixel) <==> {
            &&& positions[2 * pixel] matches Some(x)
            &&& 0 <= x < shape[1]
            &&& positions[2 * pixel + 1] matches Some(y)
            &&& 0 <= y < shape[0]
        },
{
}

} // verus!
