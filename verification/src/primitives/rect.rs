//! Axis-aligned rectangles: which coordinate axes a rectangle spans.

use vstd::prelude::*;

verus! {

/// The plane an axis-aligned rectangle lies in.
#[derive(Copy, Clone, PartialEq, Eq, Structural, Debug)]
pub enum RectAxes {
    XY,
    XZ,
    YZ,
}

/// The indices of the two axes along which a rectangle in the plane `axes`
/// has non-zero width.
pub open spec fn spanned_axes(axes: RectAxes) -> (usize, usize) {
    match axes {
        RectAxes::XY => (0usize, 1usize),
        RectAxes::XZ => (0usize, 2usize),
        RectAxes::YZ => (1usize, 2usize),
    }
}

/// The index of the axis along which a rectangle in the plane `axes` has
/// zero width.
pub open spec fn unused_axis(axes: RectAxes) -> usize {
    match axes {
        RectAxes::XY => 2usize,
        RectAxes::XZ => 1usize,
        RectAxes::YZ => 0usize,
    }
}

impl RectAxes {
    /// Returns the indices corresponding to the dimensions in which the
    /// rectangle has non-zero width
    pub fn axes_indices(&self) -> (indices: (usize, usize))
        ensures
            indices == spanned_axes(*self),
    {
        match self {
            RectAxes::XY => (0, 1),
            RectAxes::XZ => (0, 2),
            RectAxes::YZ => (1, 2),
        }
    }

    /// Returns the index of the dimension in which the rectangle has zero-width
    pub fn unused_axis_index(&self) -> (index: usize)
        ensures
            index == unused_axis(*self),
    {
        match self {
            RectAxes::XY => 2,
            RectAxes::XZ => 1,
            RectAxes::YZ => 0,
        }
    }
}

/// The two spanned axes, in increasing order, and the unused one are the
/// three coordinate axes, each once.
pub proof fn lemma_axes_partition(axes: RectAxes)
    ensures
        spanned_axes(axes).0 < spanned_axes(axes).1 < 3,
        unused_axis(axes) < 3,
        unused_axis(axes) != spanned_axes(axes).0,
        unused_axis(axes) != spanned_axes(axes).1,
{
}

} // verus!
