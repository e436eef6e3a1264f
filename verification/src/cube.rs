//! Arrays of samples.
//!
//! The arrays are those of the `ndarray` crate. Samples are bit patterns of
//! single-precision numbers.

use vstd::prelude::*;

verus! {

/// A three-dimensional array of samples.
#[verifier::external_body]
pub struct Cube {
    array: ndarray::Array3<u32>,
}

/// A two-dimensional array of samples.
#[verifier::external_body]
pub struct Plane {
    array: ndarray::Array2<u32>,
}

/// The lengths of the axes of a cube.
pub uninterp spec fn cube_shape(cube: Cube) -> Seq<int>;

/// The samples of a cube, by their indices along its axes.
pub uninterp spec fn cube_cells(cube: Cube) -> Map<(int, int, int), u32>;

/// The lengths of the axes of a plane.
pub uninterp spec fn plane_shape(plane: Plane) -> Seq<int>;

/// The samples of a plane, by their indices along its axes.
pub uninterp spec fn plane_cells(plane: Plane) -> Map<(int, int), u32>;

/// Whether three indices lie inside axes of these lengths.
pub open spec fn in_cube(shape: Seq<int>, a: int, b: int, c: int) -> bool {
    0 <= a < shape[0] && 0 <= b < shape[1] && 0 <= c < shape[2]
}

/// Whether two indices lie inside axes of these lengths.
pub open spec fn in_plane(shape: Seq<int>, a: int, b: int) -> bool {
    0 <= a < shape[0] && 0 <= b < shape[1]
}

/// Whether the axes are 0, 1 and 2 in some order.
pub open spec fn orders_three(axes: Seq<usize>) -> bool {
    &&& axes.len() == 3
    &&& axes[0] < 3 && axes[1] < 3 && axes[2] < 3
    &&& axes[0] != axes[1] && axes[0] != axes[2] && axes[1] != axes[2]
}

/// Whether the axes are 0 and 1 in some order.
pub open spec fn orders_two(axes: Seq<usize>) -> bool {
    &&& axes.len() == 2
    &&& axes[0] < 2 && axes[1] < 2
    &&& axes[0] != axes[1]
}

/// The index along an axis of the array before its axes were put in the order
/// `axes`, for the indices `(a, b, c)` after.
pub open spec fn index_before(axes: Seq<usize>, axis: int, a: int, b: int, c: int) -> int {
    if axes[0] == axis {
        a
    } else if axes[1] == axis {
        b
    } else {
        c
    }
}

/// Where a sample stands among the values that a cube was made from, the last
/// axis running fastest.
pub open spec fn cube_offset(shape: Seq<int>, a: int, b: int, c: int) -> int {
    (a * shape[1] + b) * shape[2] + c
}

/// A length, or one in place of none.
pub open spec fn at_least_one(length: int) -> int {
    if length < 1 {
        1
    } else {
        length
    }
}

/// The lengths as whole numbers.
pub open spec fn lengths_3(shape: [usize; 3]) -> Seq<int> {
    seq![shape[0] as int, shape[1] as int, shape[2] as int]
}

/// The lengths as whole numbers.
pub open spec fn lengths_2(shape: [usize; 2]) -> Seq<int> {
    seq![shape[0] as int, shape[1] as int]
}

impl Cube {
    /// A cube of the given axes from its samples, the last axis running fastest.
    ///
    /// `ndarray::Array3::from_shape_vec`, which takes any vector with as many
    /// items as the axes have indices. For an array without items the lengths that
    /// are not zero must still multiply to no more than `isize::MAX`.
    #[verifier::external_body]
    pub(crate) fn from_shape_vec(shape: [usize; 3], values: Vec<u32>) -> (r: Cube)
        requires
            shape[0] * shape[1] * shape[2] == values@.len(),
            values@.len() == 0 ==> at_least_one(shape[0] as int) * at_least_one(shape[1] as int)
                * at_least_one(shape[2] as int) <= isize::MAX,
        ensures
            cube_shape(r) == lengths_3(shape),
            forall|a: int, b: int, c: int|
                in_cube(lengths_3(shape), a, b, c) ==> #[trigger] cube_cells(r)[(a, b, c)]
                    == values@[cube_offset(lengths_3(shape), a, b, c)],
    {
        let [a, b, c] = shape;
        Cube { array: ndarray::Array3::from_shape_vec((a, b, c), values).unwrap() }
    }

    /// The lengths of the axes: `ndarray::ArrayBase::dim`.
    #[verifier::external_body]
    pub(crate) fn shape(&self) -> (r: [usize; 3])
        ensures
            cube_shape(*self) == lengths_3(r),
    {
        let (a, b, c) = self.array.dim();
        [a, b, c]
    }

    /// The sample at three indices: `ndarray::ArrayBase::index`, which is there
    /// for indices inside the axes.
    #[verifier::external_body]
    pub(crate) fn cell(&self, a: usize, b: usize, c: usize) -> (r: u32)
        requires
            in_cube(cube_shape(*self), a as int, b as int, c as int),
        ensures
            r == cube_cells(*self)[(a as int, b as int, c as int)],
    {
        self.array[[a, b, c]]
    }

    /// The same samples with the axes in another order:
    /// `ndarray::ArrayBase::permuted_axes`. The axis listed first becomes the
    /// first one, and so on; each axis is listed once.
    #[verifier::external_body]
    pub(crate) fn permuted_axes(self, axes: [usize; 3]) -> (r: Cube)
        requires
            orders_three(axes@),
        ensures
            cube_shape(r).len() == 3,
            forall|k: int| 0 <= k < 3 ==> #[trigger] cube_shape(r)[k] == cube_shape(self)[axes[k] as int],
            forall|a: int, b: int, c: int|
                in_cube(cube_shape(r), a, b, c) ==> #[trigger] cube_cells(r)[(a, b, c)]
                    == cube_cells(self)[(
                    index_before(axes@, 0, a, b, c),
                    index_before(axes@, 1, a, b, c),
                    index_before(axes@, 2, a, b, c),
                )],
    {
        Cube { array: self.array.permuted_axes(axes) }
    }
}

impl Plane {
    /// A plane of the given axes from its samples, the last axis running fastest.
    ///
    /// `ndarray::Array2::from_shape_vec`, which takes any vector with as many
    /// items as the axes have indices. For an array without items the lengths that
    /// are not zero must still multiply to no more than `isize::MAX`.
    #[verifier::external_body]
    pub(crate) fn from_shape_vec(shape: [usize; 2], values: Vec<u32>) -> (r: Plane)
        requires
            shape[0] * shape[1] == values@.len(),
            values@.len() == 0 ==> at_least_one(shape[0] as int) * at_least_one(shape[1] as int)
                <= isize::MAX,
        ensures
            plane_shape(r) == lengths_2(shape),
            forall|a: int, b: int|
                in_plane(lengths_2(shape), a, b) ==> #[trigger] plane_cells(r)[(a, b)] == values@[a
                    * shape[1] + b],
    {
        let [a, b] = shape;
        Plane { array: ndarray::Array2::from_shape_vec((a, b), values).unwrap() }
    }

    /// The same samples with the axes in another order:
    /// `ndarray::ArrayBase::permuted_axes`. The axis listed first becomes the
    /// first one; each axis is listed once.
    #[verifier::external_body]
    pub(crate) fn permuted_axes(self, axes: [usize; 2]) -> (r: Plane)
        requires
            orders_two(axes@),
        ensures
            plane_shape(r).len() == 2,
            forall|k: int| 0 <= k < 2 ==> #[trigger] plane_shape(r)[k] == plane_shape(self)[axes[k] as int],
            forall|a: int, b: int|
                in_plane(plane_shape(r), a, b) ==> #[trigger] plane_cells(r)[(a, b)]
                    == plane_cells(self)[if axes[0] == 0 { (a, b) } else { (b, a) }],
    {
        Plane { array: self.array.permuted_axes(axes) }
    }

    /// The same samples in a cube, behind a first axis of length one:
    /// `ndarray::ArrayBase::insert_axis`.
    #[verifier::external_body]
    pub(crate) fn insert_first_axis(self) -> (r: Cube)
        ensures
            cube_shape(r) == seq![1int] + plane_shape(self),
            forall|a: int, b: int|
                in_plane(plane_shape(self), a, b) ==> #[trigger] cube_cells(r)[(0, a, b)]
                    == plane_cells(self)[(a, b)],
    {
        Cube { array: self.array.insert_axis(ndarray::Axis(0)) }
    }
}

} // verus!
