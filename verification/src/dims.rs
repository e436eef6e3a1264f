//! The dimensions of an array, and the part of it that a tile needs.

use std::ops::Range;

use vstd::prelude::*;

use crate::cube::{Cube, Plane};
use crate::error::ZarrError;
use crate::text::same;

#[allow(unused_imports)]
use crate::cube::{
    at_least_one, cube_cells, cube_offset, cube_shape, in_cube, in_plane, index_before, orders_three,
    orders_two,
};

verus! {

/// The name of a dimension; not every dimension has one.
pub type DimensionName = Option<String>;

/// Whether a dimension has this name.
pub open spec fn is_named(name: DimensionName, text: Seq<char>) -> bool {
    name matches Some(n) && n@ == text
}

/// How `Debug` writes a name that is there.
pub uninterp spec fn debug_text(name: Seq<char>) -> Seq<char>;

/// A name as error messages show it.
pub open spec fn shown_name(name: DimensionName) -> Seq<char> {
    match name {
        Some(n) => debug_text(n@),
        None => "None"@,
    }
}

/// An optional name as `Debug` writes it: the `Debug` of `Option<String>`, which
/// writes `None` where there is no name.
#[verifier::external_body]
fn debug_name(name: &DimensionName) -> (r: String)
    ensures
        match *name {
            Some(n) => r@ == debug_text(n@),
            None => r@ == "None"@,
        },
{
    format!("{name:?}")
}

/// The range of a dimension: those of `time`, `y` and `x` are known, the first
/// one only for data that has times.
pub open spec fn range_of(
    name: DimensionName,
    time: Option<Range<u64>>,
    y: Range<u64>,
    x: Range<u64>,
) -> Option<Range<u64>> {
    if is_named(name, "time"@) {
        time
    } else if is_named(name, "y"@) {
        Some(y)
    } else if is_named(name, "x"@) {
        Some(x)
    } else {
        None
    }
}

/// What is said of a dimension without a range.
pub open spec fn rejects(name: DimensionName, e: ZarrError) -> bool {
    if is_named(name, "time"@) {
        e.is_time_error("Missing time array indices"@)
    } else {
        e.is_dimension_error("Unknown dimension: "@ + shown_name(name))
    }
}

/// Whether a dimension has this name.
fn named(name: &DimensionName, text: &str) -> (r: bool)
    ensures
        r <==> is_named(*name, text@),
{
    match name {
        Some(n) => same(n.as_str(), text),
        None => false,
    }
}

/// The same range once more.
fn copy(range: &Range<u64>) -> (r: Range<u64>)
    ensures
        r == *range,
{
    Range { start: range.start, end: range.end }
}

/// Whether the ranges are those of the dimensions, in their order.
pub open spec fn ranges_of(
    names: Seq<DimensionName>,
    time: Option<Range<u64>>,
    y: Range<u64>,
    x: Range<u64>,
    ranges: Seq<Range<u64>>,
) -> bool {
    &&& ranges.len() == names.len()
    &&& forall|k: int| 0 <= k < names.len() ==> range_of(#[trigger] names[k], time, y, x) == Some(ranges[k])
}

/// Whether the error is the one of the first dimension that has no range.
pub open spec fn first_rejection(
    names: Seq<DimensionName>,
    time: Option<Range<u64>>,
    y: Range<u64>,
    x: Range<u64>,
    e: ZarrError,
) -> bool {
    exists|k: int| {
        &&& 0 <= k < names.len()
        &&& range_of(#[trigger] names[k], time, y, x) is None
        &&& forall|m: int| 0 <= m < k ==> range_of(#[trigger] names[m], time, y, x) is Some
        &&& rejects(names[k], e)
    }
}

/// The ranges of the dimensions, in their order; the error of the first
/// dimension that has none.
pub fn build_ranges(
    dimension_names: &Vec<DimensionName>,
    time: &Option<Range<u64>>,
    y: &Range<u64>,
    x: &Range<u64>,
) -> (r: Result<Vec<Range<u64>>, ZarrError>)
    ensures
        match r {
            Ok(ranges) => ranges_of(dimension_names@, *time, *y, *x, ranges@),
            Err(e) => first_rejection(dimension_names@, *time, *y, *x, e),
        },
{
    let mut ranges: Vec<Range<u64>> = Vec::new();
    for k in 0..dimension_names.len()
        invariant
            ranges@.len() == k,
            forall|m: int|
                0 <= m < k ==> range_of(#[trigger] dimension_names@[m], *time, *y, *x) == Some(
                    ranges@[m],
                ),
    {
        let name = &dimension_names[k];
        if named(name, "time") {
            match time {
                Some(range) => ranges.push(copy(range)),
                None => {
                    return Err(ZarrError::TimeError("Missing time array indices".to_owned()));
                },
            }
        } else if named(name, "y") {
            ranges.push(copy(y));
        } else if named(name, "x") {
            ranges.push(copy(x));
        } else {
            let text = "Unknown dimension: ".to_owned().concat(debug_name(name).as_str());
            let e = ZarrError::DimensionError(text);
            assert(rejects(dimension_names@[k as int], e));
            return Err(e);
        }
    }
    Ok(ranges)
}

/// Whether the first dimension with this name is at `at`.
pub open spec fn first_named(names: Seq<DimensionName>, text: Seq<char>, at: int) -> bool {
    &&& 0 <= at < names.len()
    &&& is_named(names[at], text)
    &&& forall|m: int| 0 <= m < at ==> !is_named(#[trigger] names[m], text)
}

/// The place of the first dimension with this name, alone in a sequence; an
/// empty sequence where there is none.
pub open spec fn place(names: Seq<DimensionName>, text: Seq<char>) -> Seq<int> {
    if exists|at: int| first_named(names, text, at) {
        seq![choose|at: int| first_named(names, text, at)]
    } else {
        Seq::empty()
    }
}

/// The places of the dimensions `time`, `y` and `x`, as far as they are there.
pub open spec fn dimension_order(names: Seq<DimensionName>) -> Seq<int> {
    place(names, "time"@) + place(names, "y"@) + place(names, "x"@)
}

/// The indices as whole numbers.
pub open spec fn whole(indices: Seq<usize>) -> Seq<int> {
    indices.map_values(|i: usize| i as int)
}

/// The place of the first dimension with this name.
fn position(names: &Vec<DimensionName>, text: &str) -> (r: Option<usize>)
    ensures
        match r {
            Some(at) => first_named(names@, text@, at as int) && place(names@, text@) == seq![at as int],
            None => place(names@, text@) == Seq::<int>::empty(),
        },
{
    for k in 0..names.len()
        invariant
            forall|m: int| 0 <= m < k ==> !is_named(#[trigger] names@[m], text@),
    {
        if named(&names[k], text) {
            proof {
                assert(first_named(names@, text@, k as int));
                let at = choose|at: int| first_named(names@, text@, at);
                assert(first_named(names@, text@, at));
                assert(at == k);
            }
            return Some(k);
        }
    }
    None
}

/// The places of the dimensions `time`, `y` and `x`, in this order, as far as
/// they are there.
pub fn order_dimensions(names: &Vec<DimensionName>) -> (r: Vec<usize>)
    ensures
        whole(r@) == dimension_order(names@),
{
    let mut order: Vec<usize> = Vec::new();
    match position(names, "time") {
        Some(at) => order.push(at),
        None => {},
    }
    assert(whole(order@) =~= place(names@, "time"@));
    match position(names, "y") {
        Some(at) => order.push(at),
        None => {},
    }
    assert(whole(order@) =~= place(names@, "time"@) + place(names@, "y"@));
    match position(names, "x") {
        Some(at) => order.push(at),
        None => {},
    }
    assert(whole(order@) =~= dimension_order(names@));
    order
}

/// What to read from an array for a tile, and how to turn it.
pub struct Retrieval {
    /// The range along each dimension.
    pub ranges: Vec<Range<u64>>,
    /// The places of the dimensions `time`, `y` and `x`.
    pub perm: Vec<usize>,
}

/// The number of indices in a range.
pub open spec fn length(range: Range<u64>) -> int {
    if range.start < range.end {
        range.end - range.start
    } else {
        0
    }
}

/// The number of indices in a range.
fn range_length(range: &Range<u64>) -> (r: u64)
    ensures
        r == length(*range),
{
    if range.start < range.end {
        range.end - range.start
    } else {
        0
    }
}

/// The range of one time.
pub open spec fn time_range(temporal_index: Option<u64>) -> Option<Range<u64>> {
    match temporal_index {
        Some(t) => Some(Range { start: t, end: (t + 1) as u64 }),
        None => None,
    }
}

/// The columns of the box of a warp grid.
pub open spec fn column_range(bbox: [u64; 4]) -> Range<u64> {
    Range { start: bbox[0], end: (bbox[2] + 1) as u64 }
}

/// The rows of the box of a warp grid.
pub open spec fn row_range(bbox: [u64; 4]) -> Range<u64> {
    Range { start: bbox[3], end: (bbox[1] + 1) as u64 }
}

/// Whether every dimension has a range.
pub open spec fn all_known(
    names: Seq<DimensionName>,
    bbox: [u64; 4],
    temporal_index: Option<u64>,
) -> bool {
    forall|k: int|
        0 <= k < names.len() ==> range_of(
            #[trigger] names[k],
            time_range(temporal_index),
            row_range(bbox),
            column_range(bbox),
        ) is Some
}

impl Retrieval {
    /// Whether this is what a tile needs from an array with these dimensions.
    pub open spec fn fits(
        self,
        names: Seq<DimensionName>,
        bbox: [u64; 4],
        temporal_index: Option<u64>,
    ) -> bool {
        &&& ranges_of(
            names,
            time_range(temporal_index),
            row_range(bbox),
            column_range(bbox),
            self.ranges@,
        )
        &&& whole(self.perm@) == dimension_order(names)
    }

    /// Whether samples read by these ranges can be turned: each dimension has its
    /// place, and the lengths are those of an array in memory.
    pub open spec fn arrangeable(self) -> bool {
        &&& self.ranges@.len() == 2 || self.ranges@.len() == 3
        &&& self.ranges@.len() == 3 ==> orders_three(self.perm@)
        &&& self.ranges@.len() == 2 ==> orders_two(self.perm@)
        &&& forall|k: int|
            0 <= k < self.ranges@.len() ==> length(#[trigger] self.ranges@[k]) <= usize::MAX
        &&& self.size() == 0 ==> self.extent() <= isize::MAX
    }

    /// The number of samples that the ranges hold.
    pub open spec fn size(self) -> int {
        if self.ranges@.len() == 3 {
            length(self.ranges@[0]) * length(self.ranges@[1]) * length(self.ranges@[2])
        } else {
            length(self.ranges@[0]) * length(self.ranges@[1])
        }
    }

    /// The number of samples that the ranges would hold with one index in place of
    /// none.
    pub open spec fn extent(self) -> int {
        let first = at_least_one(length(self.ranges@[0]));
        let second = at_least_one(length(self.ranges@[1]));
        if self.ranges@.len() == 3 {
            first * second * at_least_one(length(self.ranges@[2]))
        } else {
            first * second
        }
    }

    /// The length of the `k`-th axis once the samples are turned.
    pub open spec fn turned_length(self, k: int) -> int {
        length(self.ranges@[self.perm@[k] as int])
    }

    /// The lengths of the axes once the samples are turned, behind a first axis of
    /// length one where there is no time.
    pub open spec fn turned_shape(self) -> Seq<int> {
        if self.ranges@.len() == 3 {
            seq![self.turned_length(0), self.turned_length(1), self.turned_length(2)]
        } else {
            seq![1, self.turned_length(0), self.turned_length(1)]
        }
    }

    /// The place among the samples, as they were read, of the one that stands at
    /// `(a, b, c)` once they are turned.
    pub open spec fn turned_offset(self, a: int, b: int, c: int) -> int {
        if self.ranges@.len() == 3 {
            cube_offset(
                seq![length(self.ranges@[0]), length(self.ranges@[1]), length(self.ranges@[2])],
                index_before(self.perm@, 0, a, b, c),
                index_before(self.perm@, 1, a, b, c),
                index_before(self.perm@, 2, a, b, c),
            )
        } else if self.perm@[0] == 0 {
            b * length(self.ranges@[1]) + c
        } else {
            c * length(self.ranges@[1]) + b
        }
    }
}

/// What a tile needs from an array: the ranges along its dimensions, and the
/// order that puts time first, then rows and columns.
///
/// `warp_grid_bbox` is the box of the warp grid of the tile, `temporal_index`
/// the index of the time that was asked for.
pub fn plan_retrieval(
    warp_grid_bbox: [u64; 4],
    temporal_index: Option<u64>,
    dimension_names: &Option<Vec<DimensionName>>,
) -> (r: Result<Retrieval, ZarrError>)
    requires
        temporal_index matches Some(t) ==> t < u64::MAX,
    ensures
        match r {
            Ok(plan) => {
                &&& dimension_names matches Some(names)
                &&& warp_grid_bbox[2] < u64::MAX
                &&& warp_grid_bbox[1] < u64::MAX
                &&& names@.len() == 2 || names@.len() == 3
                &&& plan.fits(names@, warp_grid_bbox, temporal_index)
            },
            Err(e) => match *dimension_names {
                None => e.is_dimension_error("Missing dimension names"@),
                Some(names) => if warp_grid_bbox[2] == u64::MAX {
                    e.is_dimension_error("x range overflow"@)
                } else if warp_grid_bbox[1] == u64::MAX {
                    e.is_dimension_error("y range overflow"@)
                } else if all_known(names@, warp_grid_bbox, temporal_index) {
                    &&& names@.len() != 2 && names@.len() != 3
                    &&& e.is_dimension_error("Expected 2 or 3 dimensions"@)
                } else {
                    first_rejection(
                        names@,
                        time_range(temporal_index),
                        row_range(warp_grid_bbox),
                        column_range(warp_grid_bbox),
                        e,
                    )
                },
            },
        },
{
    let time: Option<Range<u64>> = match temporal_index {
        Some(t) => Some(Range { start: t, end: t + 1 }),
        None => None,
    };
    let names = match dimension_names {
        Some(names) => names,
        None => {
            return Err(ZarrError::DimensionError("Missing dimension names".to_owned()));
        },
    };
    let x_end = match warp_grid_bbox[2].checked_add(1) {
        Some(end) => end,
        None => {
            return Err(ZarrError::DimensionError("x range overflow".to_owned()));
        },
    };
    let y_end = match warp_grid_bbox[1].checked_add(1) {
        Some(end) => end,
        None => {
            return Err(ZarrError::DimensionError("y range overflow".to_owned()));
        },
    };
    let x_range: Range<u64> = Range { start: warp_grid_bbox[0], end: x_end };
    let y_range: Range<u64> = Range { start: warp_grid_bbox[3], end: y_end };
    let ranges = match build_ranges(names, &time, &y_range, &x_range) {
        Ok(ranges) => ranges,
        Err(e) => {
            return Err(e);
        },
    };
    let perm = order_dimensions(names);
    if ranges.len() != 2 && ranges.len() != 3 {
        return Err(ZarrError::DimensionError("Expected 2 or 3 dimensions".to_owned()));
    }
    Ok(Retrieval { ranges, perm })
}

/// Whether samples read for a tile can be turned.
pub fn can_arrange(plan: &Retrieval, count: usize) -> (r: bool)
    ensures
        r <==> plan.arrangeable() && plan.size() == count,
{
    let n: usize = plan.ranges.len();
    if (n != 2 && n != 3) || plan.perm.len() != n {
        return false;
    }
    let mut extent: usize = 1;
    let mut is_empty = false;
    for k in 0..n
        invariant
            n == plan.ranges@.len(),
            n == 2 || n == 3,
            forall|m: int| 0 <= m < k ==> length(#[trigger] plan.ranges@[m]) <= usize::MAX,
            is_empty <==> exists|m: int| 0 <= m < k && length(#[trigger] plan.ranges@[m]) == 0,
            extent == plan.partial(k as int),
    {
        let size = range_length(&plan.ranges[k]);
        if size > usize::MAX as u64 {
            assert(!(length(plan.ranges@[k as int]) <= usize::MAX));
            return false;
        }
        if size == 0 {
            assert(length(plan.ranges@[k as int]) == 0);
            is_empty = true;
        }
        let factor: usize = if size == 0 { 1 } else { size as usize };
        extent = match extent.checked_mul(factor) {
            Some(product) => product,
            None => {
                proof {
                    lemma_extent(*plan, k + 1);
                }
                return false;
            },
        };
    }
    proof {
        lemma_extent(*plan, n as int);
    }
    let size: usize = if is_empty { 0 } else { extent };
    let p = &plan.perm;
    let ordered = if n == 2 {
        p[0] < 2 && p[1] < 2 && p[0] != p[1]
    } else {
        p[0] < 3 && p[1] < 3 && p[2] < 3 && p[0] != p[1] && p[0] != p[2] && p[1] != p[2]
    };
    ordered && size == count && (size != 0 || extent <= isize::MAX as usize)
}

impl Retrieval {
    /// What the first `count` ranges would hold with one index in place of none.
    spec fn partial(self, count: int) -> int
        decreases count,
    {
        if count <= 0 {
            1
        } else {
            self.partial(count - 1) * at_least_one(length(self.ranges@[count - 1]))
        }
    }
}

/// The ranges hold nothing where one of them is empty, and else what they would
/// hold, which is no less than what the first of them would.
proof fn lemma_extent(plan: Retrieval, count: int)
    requires
        plan.ranges@.len() == 2 || plan.ranges@.len() == 3,
        0 <= count <= plan.ranges@.len(),
    ensures
        plan.partial(count) <= plan.extent(),
        count == plan.ranges@.len() ==> plan.partial(count) == plan.extent(),
        plan.size() == 0 || plan.size() == plan.extent(),
        plan.size() == 0 <==> exists|m: int|
            0 <= m < plan.ranges@.len() && length(#[trigger] plan.ranges@[m]) == 0,
{
    reveal_with_fuel(Retrieval::partial, 4);
    let a = length(plan.ranges@[0]);
    let b = length(plan.ranges@[1]);
    let x = at_least_one(a);
    let y = at_least_one(b);
    assert(1 * x == x && x * y >= 1 && x <= x * y && (a * b == 0 <==> a == 0 || b == 0))
        by (nonlinear_arith)
        requires
            x >= 1,
            y >= 1,
    ;
    assert(a >= 0 && b >= 0 && a * b >= 0) by (nonlinear_arith)
        requires
            a >= 0,
            b >= 0,
    ;
    if plan.ranges@.len() == 3 {
        let c = length(plan.ranges@[2]);
        let z = at_least_one(c);
        let area = a * b;
        let base = x * y;
        assert(base <= base * z && (area * c == 0 <==> area == 0 || c == 0)) by (nonlinear_arith)
            requires
                base >= 1,
                z >= 1,
        ;
    }
}

/// Turns the samples of a tile so that time comes first, then rows and columns;
/// samples without a time get a first axis of length one.
pub fn arrange(plan: &Retrieval, values: Vec<u32>) -> (r: Cube)
    requires
        plan.arrangeable(),
        plan.size() == values@.len(),
    ensures
        cube_shape(r) == plan.turned_shape(),
        forall|a: int, b: int, c: int|
            in_cube(cube_shape(r), a, b, c) ==> #[trigger] cube_cells(r)[(a, b, c)]
                == values@[plan.turned_offset(a, b, c)],
{
    let ranges = &plan.ranges;
    let p = &plan.perm;
    let first: usize = range_length(&ranges[0]) as usize;
    let second: usize = range_length(&ranges[1]) as usize;
    if ranges.len() == 3 {
        let third: usize = range_length(&ranges[2]) as usize;
        let data = Cube::from_shape_vec([first, second, third], values);
        let r = data.permuted_axes([p[0], p[1], p[2]]);
        assert(cube_shape(r) =~= plan.turned_shape());
        r
    } else {
        let data = Plane::from_shape_vec([first, second], values);
        let turned = data.permuted_axes([p[0], p[1]]);
        let r = turned.insert_first_axis();
        assert(cube_shape(r) =~= plan.turned_shape());
        r
    }
}

} // verus!
