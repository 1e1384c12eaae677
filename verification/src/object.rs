//! The discrete side of the geometric objects: coordinate axes, the axis
//! assignments of axis-aligned rectangles, and the sentinel primitive.
//!
//! An axis-aligned rectangle lies in one of the three coordinate planes: one
//! axis holds a constant coordinate and the two others span the rectangle.
//! The assignments here fix which axis plays which role; the floating-point
//! intersection math that consumes them lives with the application.

use vstd::prelude::*;

verus! {

/// Axis of a three-dimensional vector. Can be used for indexing.
#[derive(Clone, Copy, Debug, PartialEq, Eq, Structural)]
pub enum Axis {
    X,
    Y,
    Z,
}

impl Axis {
    /// The component this axis selects from an `[x, y, z]` triple.
    pub open spec fn spec_index(self) -> int {
        match self {
            Axis::X => 0,
            Axis::Y => 1,
            Axis::Z => 2,
        }
    }

    /// The component this axis selects from an `[x, y, z]` triple.
    pub fn index(self) -> (i: usize)
        ensures
            i == self.spec_index(),
    {
        match self {
            Axis::X => 0,
            Axis::Y => 1,
            Axis::Z => 2,
        }
    }
}

/// Defines the axles a rectangle is aligned to: the constant axis and the
/// two axes that span the rectangle.
pub trait RectAxis: Sized {
    /// The axis the rectangle's plane holds constant.
    spec fn spec_axis(&self) -> Axis;

    /// The first axis spanning the rectangle.
    spec fn spec_other1(&self) -> Axis;

    /// The second axis spanning the rectangle.
    spec fn spec_other2(&self) -> Axis;

    /// The three roles are played by three distinct axes.
    proof fn axes_distinct(&self)
        ensures
            self.spec_axis() != self.spec_other1(),
            self.spec_axis() != self.spec_other2(),
            self.spec_other1() != self.spec_other2(),
    ;

    /// The axis the rectangle's plane holds constant.
    fn axis(&self) -> (a: Axis)
        ensures
            a == self.spec_axis(),
    ;

    /// The first axis spanning the rectangle.
    fn other1(&self) -> (a: Axis)
        ensures
            a == self.spec_other1(),
    ;

    /// The second axis spanning the rectangle.
    fn other2(&self) -> (a: Axis)
        ensures
            a == self.spec_other2(),
    ;
}

/// A rectangle in the XY plane: `z` constant.
pub struct XY;

impl RectAxis for XY {
    open spec fn spec_axis(&self) -> Axis {
        Axis::Z
    }

    open spec fn spec_other1(&self) -> Axis {
        Axis::X
    }

    open spec fn spec_other2(&self) -> Axis {
        Axis::Y
    }

    proof fn axes_distinct(&self) {
    }

    fn axis(&self) -> Axis {
        Axis::Z
    }

    fn other1(&self) -> Axis {
        Axis::X
    }

    fn other2(&self) -> Axis {
        Axis::Y
    }
}

/// A rectangle in the XZ plane: `y` constant.
pub struct XZ;

impl RectAxis for XZ {
    open spec fn spec_axis(&self) -> Axis {
        Axis::Y
    }

    open spec fn spec_other1(&self) -> Axis {
        Axis::X
    }

    open spec fn spec_other2(&self) -> Axis {
        Axis::Z
    }

    proof fn axes_distinct(&self) {
    }

    fn axis(&self) -> Axis {
        Axis::Y
    }

    fn other1(&self) -> Axis {
        Axis::X
    }

    fn other2(&self) -> Axis {
        Axis::Z
    }
}

/// A rectangle in the YZ plane: `x` constant.
pub struct YZ;

impl RectAxis for YZ {
    open spec fn spec_axis(&self) -> Axis {
        Axis::X
    }

    open spec fn spec_other1(&self) -> Axis {
        Axis::Y
    }

    open spec fn spec_other2(&self) -> Axis {
        Axis::Z
    }

    proof fn axes_distinct(&self) {
    }

    fn axis(&self) -> Axis {
        Axis::X
    }

    fn other1(&self) -> Axis {
        Axis::Y
    }

    fn other2(&self) -> Axis {
        Axis::Z
    }
}

/// Sentinel primitive: it is never hit and it has no bounding box. The
/// bounding-volume hierarchy wraps it when it is built over an empty list of
/// primitives.
pub struct Unhittable;

} // verus!
