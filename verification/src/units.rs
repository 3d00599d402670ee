//! Points and axis-aligned boxes on an integer grid.

use vstd::prelude::*;

verus! {

/// A point with integer coordinates.
#[derive(Clone, Copy, Debug, PartialEq, Eq, Structural)]
pub struct Point2D {
    pub x: i32,
    pub y: i32,
}

/// A point in the picture space of a tile cache.
pub type PicturePoint = Point2D;

/// A point in raster space, in quarter pixels.
pub type RasterPoint = Point2D;

/// An axis-aligned box given by its two extreme corners.
///
/// A box whose `max` is not strictly beyond its `min` on both axes is empty.
#[derive(Clone, Copy, Debug, PartialEq, Eq, Structural)]
pub struct Box2D {
    pub min: Point2D,
    pub max: Point2D,
}

/// A box in picture space.
pub type PictureBox2D = Box2D;

/// A box in picture space.
pub type PictureRect = Box2D;

/// A box in raster space, in quarter pixels.
pub type RasterRect = Box2D;

pub open spec fn spec_min(a: int, b: int) -> int {
    if a <= b { a } else { b }
}

pub open spec fn spec_max(a: int, b: int) -> int {
    if a >= b { a } else { b }
}

/// `v` limited to the interval from `lo` to `hi`: first raised to `lo`,
/// then lowered to `hi`.
pub open spec fn spec_clamp(v: int, lo: int, hi: int) -> int {
    spec_min(spec_max(v, lo), hi)
}

/// The smaller of two coordinates.
pub fn min_i32(a: i32, b: i32) -> (r: i32)
    ensures
        r == spec_min(a as int, b as int),
{
    if a <= b { a } else { b }
}

/// The larger of two coordinates.
pub fn max_i32(a: i32, b: i32) -> (r: i32)
    ensures
        r == spec_max(a as int, b as int),
{
    if a >= b { a } else { b }
}

/// Limits `v` to the interval from `lo` to `hi`.
pub fn clamp_i32(v: i32, lo: i32, hi: i32) -> (r: i32)
    ensures
        r == spec_clamp(v as int, lo as int, hi as int),
{
    min_i32(max_i32(v, lo), hi)
}

impl Point2D {
    pub fn new(x: i32, y: i32) -> (p: Point2D)
        ensures
            p == (Point2D { x, y }),
    {
        Point2D { x, y }
    }
}

impl Box2D {
    /// The box with both corners at the origin. It is empty.
    pub open spec fn spec_zero() -> Box2D {
        Box2D { min: Point2D { x: 0, y: 0 }, max: Point2D { x: 0, y: 0 } }
    }

    /// The empty box that every coordinate lies strictly inside of, seen from
    /// either side: `min` at the largest coordinate, `max` at the smallest.
    pub open spec fn spec_nothing() -> Box2D {
        Box2D {
            min: Point2D { x: i32::MAX, y: i32::MAX },
            max: Point2D { x: i32::MIN, y: i32::MIN },
        }
    }

    pub open spec fn spec_is_empty(self) -> bool {
        !(self.max.x > self.min.x && self.max.y > self.min.y)
    }

    /// Whether the two boxes share a region of positive area.
    pub open spec fn spec_intersects(self, other: Box2D) -> bool {
        &&& spec_max(self.min.x as int, other.min.x as int) < spec_min(
            self.max.x as int,
            other.max.x as int,
        )
        &&& spec_max(self.min.y as int, other.min.y as int) < spec_min(
            self.max.y as int,
            other.max.y as int,
        )
    }

    /// Whether `other` lies inside `self`. An empty box lies inside every box.
    pub open spec fn spec_contains_box(self, other: Box2D) -> bool {
        other.spec_is_empty() || (self.min.x <= other.min.x && other.max.x <= self.max.x
            && self.min.y <= other.min.y && other.max.y <= self.max.y)
    }

    /// The smallest box around both, where an empty box counts for nothing:
    /// the union with an empty box is the other box.
    pub open spec fn spec_union(self, other: Box2D) -> Box2D {
        if other.spec_is_empty() {
            self
        } else if self.spec_is_empty() {
            other
        } else {
            Box2D {
                min: Point2D {
                    x: spec_min(self.min.x as int, other.min.x as int) as i32,
                    y: spec_min(self.min.y as int, other.min.y as int) as i32,
                },
                max: Point2D {
                    x: spec_max(self.max.x as int, other.max.x as int) as i32,
                    y: spec_max(self.max.y as int, other.max.y as int) as i32,
                },
            }
        }
    }

    /// Each coordinate limited to the extent of `bounds` on its axis.
    pub open spec fn spec_clamp_to(self, bounds: Box2D) -> Box2D {
        Box2D {
            min: Point2D {
                x: spec_clamp(self.min.x as int, bounds.min.x as int, bounds.max.x as int) as i32,
                y: spec_clamp(self.min.y as int, bounds.min.y as int, bounds.max.y as int) as i32,
            },
            max: Point2D {
                x: spec_clamp(self.max.x as int, bounds.min.x as int, bounds.max.x as int) as i32,
                y: spec_clamp(self.max.y as int, bounds.min.y as int, bounds.max.y as int) as i32,
            },
        }
    }

    pub fn new(min: Point2D, max: Point2D) -> (b: Box2D)
        ensures
            b == (Box2D { min, max }),
    {
        Box2D { min, max }
    }

    /// The box from `(x0, y0)` to `(x1, y1)`.
    pub fn from_coords(x0: i32, y0: i32, x1: i32, y1: i32) -> (b: Box2D)
        ensures
            b == (Box2D { min: Point2D { x: x0, y: y0 }, max: Point2D { x: x1, y: y1 } }),
    {
        Box2D { min: Point2D { x: x0, y: y0 }, max: Point2D { x: x1, y: y1 } }
    }

    pub fn zero() -> (b: Box2D)
        ensures
            b == Self::spec_zero(),
    {
        Box2D { min: Point2D { x: 0, y: 0 }, max: Point2D { x: 0, y: 0 } }
    }

    /// The starting value for accumulating a union.
    pub fn nothing() -> (b: Box2D)
        ensures
            b == Self::spec_nothing(),
    {
        Box2D {
            min: Point2D { x: i32::MAX, y: i32::MAX },
            max: Point2D { x: i32::MIN, y: i32::MIN },
        }
    }

    pub fn is_empty(&self) -> (r: bool)
        ensures
            r == self.spec_is_empty(),
    {
        !(self.max.x > self.min.x && self.max.y > self.min.y)
    }

    pub fn intersects(&self, other: &Box2D) -> (r: bool)
        ensures
            r == self.spec_intersects(*other),
    {
        max_i32(self.min.x, other.min.x) < min_i32(self.max.x, other.max.x) && max_i32(
            self.min.y,
            other.min.y,
        ) < min_i32(self.max.y, other.max.y)
    }

    pub fn contains_box(&self, other: &Box2D) -> (r: bool)
        ensures
            r == self.spec_contains_box(*other),
    {
        other.is_empty() || (self.min.x <= other.min.x && other.max.x <= self.max.x && self.min.y
            <= other.min.y && other.max.y <= self.max.y)
    }

    pub fn union(&self, other: &Box2D) -> (r: Box2D)
        ensures
            r == self.spec_union(*other),
    {
        if other.is_empty() {
            *self
        } else if self.is_empty() {
            *other
        } else {
            Box2D {
                min: Point2D {
                    x: min_i32(self.min.x, other.min.x),
                    y: min_i32(self.min.y, other.min.y),
                },
                max: Point2D {
                    x: max_i32(self.max.x, other.max.x),
                    y: max_i32(self.max.y, other.max.y),
                },
            }
        }
    }

    pub fn clamp_to(&self, bounds: &Box2D) -> (r: Box2D)
        ensures
            r == self.spec_clamp_to(*bounds),
    {
        Box2D {
            min: Point2D {
                x: clamp_i32(self.min.x, bounds.min.x, bounds.max.x),
                y: clamp_i32(self.min.y, bounds.min.y, bounds.max.y),
            },
            max: Point2D {
                x: clamp_i32(self.max.x, bounds.min.x, bounds.max.x),
                y: clamp_i32(self.max.y, bounds.min.y, bounds.max.y),
            },
        }
    }
}

/// A box clamped to bounds is non-empty exactly when it shares a region of
/// positive area with the bounds.
pub proof fn lemma_clamp_nonempty_iff_intersects(b: Box2D, bounds: Box2D)
    ensures
        !b.spec_clamp_to(bounds).spec_is_empty() <==> b.spec_intersects(bounds),
{
}

} // verus!
