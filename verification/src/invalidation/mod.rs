//! The per-tile dependency descriptor and the comparison of two frames.

use vstd::prelude::*;

pub mod cached_surface;
pub mod compare;
pub mod dep_lists;
pub mod dep_stream;
pub mod laws;
pub mod quadtree;
pub mod vert_buffer;

verus! {

/// How a primitive of the previous frame relates to the primitive at the same
/// position in the current frame.
#[derive(Clone, Copy, Debug, PartialEq, Eq, Structural)]
pub enum PrimitiveCompareResult {
    /// Nothing that is tracked has changed.
    Equal,
    /// The template, the corners, the number of dependencies or the kind of
    /// a dependency differs.
    Descriptor,
    /// A clip differs.
    Clip,
    /// An image differs or was replaced.
    Image,
    /// An opacity differs or its binding changed.
    OpacityBinding,
    /// A colour differs or its binding changed.
    ColorBinding,
}

/// Why a tile was invalidated.
#[derive(Clone, Copy, Debug, PartialEq, Eq, Structural)]
pub enum InvalidationReason {
    BackgroundColor,
    ScaleChanged,
    ValidRectChanged,
    Descriptor,
    Clip,
    Image,
    OpacityBinding,
    ColorBinding,
}

impl PrimitiveCompareResult {
    /// The reason that a comparison result stands for; none for `Equal`.
    pub open spec fn spec_reason(self) -> Option<InvalidationReason> {
        match self {
            PrimitiveCompareResult::Equal => None,
            PrimitiveCompareResult::Descriptor => Some(InvalidationReason::Descriptor),
            PrimitiveCompareResult::Clip => Some(InvalidationReason::Clip),
            PrimitiveCompareResult::Image => Some(InvalidationReason::Image),
            PrimitiveCompareResult::OpacityBinding => Some(InvalidationReason::OpacityBinding),
            PrimitiveCompareResult::ColorBinding => Some(InvalidationReason::ColorBinding),
        }
    }

    /// The reason that a comparison result stands for; none for `Equal`.
    pub fn reason(&self) -> (r: Option<InvalidationReason>)
        ensures
            r == self.spec_reason(),
            r is None <==> *self == PrimitiveCompareResult::Equal,
    {
        match self {
            PrimitiveCompareResult::Equal => None,
            PrimitiveCompareResult::Descriptor => Some(InvalidationReason::Descriptor),
            PrimitiveCompareResult::Clip => Some(InvalidationReason::Clip),
            PrimitiveCompareResult::Image => Some(InvalidationReason::Image),
            PrimitiveCompareResult::OpacityBinding => Some(InvalidationReason::OpacityBinding),
            PrimitiveCompareResult::ColorBinding => Some(InvalidationReason::ColorBinding),
        }
    }
}

} // verus!
