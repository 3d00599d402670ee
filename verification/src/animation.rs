//! Generic values of the properties of animations and transitions.

use vstd::prelude::*;

verus! {

/// Values that have a zero.
pub trait Zero: Sized {
    /// Whether the value is the zero of its type.
    spec fn spec_is_zero(&self) -> bool;

    /// The zero of the type.
    fn zero() -> (r: Self)
        ensures
            r.spec_is_zero(),
    ;

    /// Whether the value is the zero of its type.
    fn is_zero(&self) -> (r: bool)
        ensures
            r == self.spec_is_zero(),
    ;
}

impl Zero for u32 {
    open spec fn spec_is_zero(&self) -> bool {
        *self == 0
    }

    fn zero() -> (r: Self) {
        0
    }

    fn is_zero(&self) -> (r: bool) {
        *self == 0
    }
}

impl Zero for i32 {
    open spec fn spec_is_zero(&self) -> bool {
        *self == 0
    }

    fn zero() -> (r: Self) {
        0
    }

    fn is_zero(&self) -> (r: bool) {
        *self == 0
    }
}

/// The value of `animation-duration`.
#[derive(Clone, Copy, Debug, PartialEq)]
pub enum GenericAnimationDuration<T> {
    /// The initial value.
    Auto,
    /// A time, not negative.
    Time(T),
}

pub use self::GenericAnimationDuration as AnimationDuration;

impl<T> AnimationDuration<T> {
    /// The `auto` value.
    pub fn auto() -> (r: Self)
        ensures
            r is Auto,
    {
        Self::Auto
    }

    /// Whether the value is `auto`.
    pub fn is_auto(&self) -> (r: bool)
        ensures
            r == (*self is Auto),
    {
        matches!(*self, Self::Auto)
    }
}

impl<T: Zero> Zero for AnimationDuration<T> {
    /// A duration is zero where it is a time that is zero; `auto` is not.
    open spec fn spec_is_zero(&self) -> bool {
        match *self {
            GenericAnimationDuration::Time(t) => t.spec_is_zero(),
            GenericAnimationDuration::Auto => false,
        }
    }

    fn zero() -> (r: Self) {
        Self::Time(T::zero())
    }

    fn is_zero(&self) -> (r: bool) {
        match self {
            Self::Time(t) => t.is_zero(),
            _ => false,
        }
    }
}

/// The axis of scrolling that drives a timeline.
#[derive(Clone, Copy, Debug, PartialEq, Eq, Structural)]
pub enum ScrollAxis {
    /// The block axis of the scroll container. The default.
    Block,
    /// The inline axis of the scroll container.
    Inline,
    /// The horizontal axis.
    X,
    /// The vertical axis.
    Y,
}

impl ScrollAxis {
    /// Whether the axis is the default, which is not serialised.
    pub fn is_default(&self) -> (r: bool)
        ensures
            r == (*self == ScrollAxis::Block),
    {
        matches!(*self, ScrollAxis::Block)
    }
}

/// The scroll container that a `scroll()` timeline follows.
#[derive(Clone, Copy, Debug, PartialEq, Eq, Structural)]
pub enum Scroller {
    /// The nearest ancestor that scrolls. The default.
    Nearest,
    /// The viewport of the document.
    Root,
    /// The element itself.
    SelfElement,
}

/// The `scroll()` notation.
#[derive(Clone, Copy, Debug, PartialEq, Eq, Structural)]
pub struct ScrollFunction {
    pub scroller: Scroller,
    pub axis: ScrollAxis,
}

/// The name of a scroll or view timeline. The empty name stands for `none`.
#[derive(Clone, Debug, PartialEq)]
pub struct TimelineName(pub String);

/// The named part of a view timeline that an animation range refers to.
#[derive(Clone, Copy, Debug, PartialEq, Eq, Structural)]
pub enum TimelineRangeName {
    /// No name: the range is a length or percentage, or `normal`.
    Unnamed,
    Cover,
    Contain,
    Entry,
    Exit,
    EntryCrossing,
    ExitCrossing,
    Scroll,
}

/// A length or percentage, or `auto`.
#[derive(Clone, Copy, Debug, PartialEq)]
pub enum GenericLengthPercentageOrAuto<LengthPercent> {
    LengthPercentage(LengthPercent),
    Auto,
}

impl<LengthPercent> GenericLengthPercentageOrAuto<LengthPercent> {
    /// The `auto` value.
    pub fn auto() -> (r: Self)
        ensures
            r is Auto,
    {
        Self::Auto
    }

    /// Whether the value is `auto`.
    pub fn is_auto(&self) -> (r: bool)
        ensures
            r == (*self is Auto),
    {
        matches!(*self, Self::Auto)
    }
}

/// The inset of a view timeline: how far its visibility range is moved in at
/// the start and at the end.
#[derive(Clone, Copy, Debug, PartialEq)]
pub struct GenericViewTimelineInset<LengthPercent> {
    /// The inset at the start, in the axis of the timeline.
    pub start: GenericLengthPercentageOrAuto<LengthPercent>,
    /// The inset at the end.
    pub end: GenericLengthPercentageOrAuto<LengthPercent>,
}

pub use self::GenericViewTimelineInset as ViewTimelineInset;

impl<LengthPercent> ViewTimelineInset<LengthPercent> {
    /// Whether both insets are `auto`.
    pub fn is_auto(&self) -> (r: bool)
        ensures
            r == (self.start is Auto && self.end is Auto),
    {
        self.start.is_auto() && self.end.is_auto()
    }
}

impl<LengthPercent> Default for ViewTimelineInset<LengthPercent> {
    fn default() -> (r: Self)
        ensures
            r.start is Auto,
            r.end is Auto,
    {
        Self {
            start: GenericLengthPercentageOrAuto::auto(),
            end: GenericLengthPercentageOrAuto::auto(),
        }
    }
}

/// The `view()` notation.
#[derive(Clone, Debug, PartialEq)]
pub struct GenericViewFunction<LengthPercent> {
    /// The axis of scrolling that drives the timeline.
    pub axis: ScrollAxis,
    /// The inset of the visibility range.
    pub inset: GenericViewTimelineInset<LengthPercent>,
}

pub use self::GenericViewFunction as ViewFunction;

/// The value of `animation-timeline` for one animation.
#[derive(Clone, Debug, PartialEq)]
pub enum GenericAnimationTimeline<LengthPercent> {
    /// The default timeline of the document.
    Auto,
    /// A named scroll or view timeline.
    Timeline(TimelineName),
    /// The `scroll()` notation.
    Scroll(ScrollFunction),
    /// The `view()` notation.
    View(GenericViewFunction<LengthPercent>),
}

pub use self::GenericAnimationTimeline as AnimationTimeline;

impl<LengthPercent> AnimationTimeline<LengthPercent> {
    /// The `auto` value.
    pub fn auto() -> (r: Self)
        ensures
            r is Auto,
    {
        Self::Auto
    }

    /// Whether the value is `auto`, the default.
    pub fn is_auto(&self) -> (r: bool)
        ensures
            r == (*self is Auto),
    {
        matches!(self, Self::Auto)
    }
}

/// The value of `animation-range-start` or `animation-range-end`.
#[derive(Clone, Debug, PartialEq)]
pub struct GenericAnimationRangeValue<LengthPercent> {
    /// The named part of the timeline; unnamed where the range has a length
    /// or percentage only.
    pub name: TimelineRangeName,
    /// The point, measured from the start of the named part. `None` only for
    /// the keyword `normal`.
    pub lp: Option<LengthPercent>,
}

pub use self::GenericAnimationRangeValue as AnimationRangeValue;

impl<LengthPercent> Default for AnimationRangeValue<LengthPercent> {
    /// The keyword `normal`.
    fn default() -> (r: Self)
        ensures
            r.name == TimelineRangeName::Unnamed,
            r.lp is None,
    {
        Self { name: TimelineRangeName::Unnamed, lp: None }
    }
}

impl<LengthPercent> AnimationRangeValue<LengthPercent> {
    /// The range that is a length or percentage.
    pub fn length_percentage(lp: LengthPercent) -> (r: Self)
        ensures
            r.name == TimelineRangeName::Unnamed,
            r.lp == Some(lp),
    {
        Self { name: TimelineRangeName::Unnamed, lp: Some(lp) }
    }

    /// The range that is a point of a named part of the timeline.
    pub fn timeline_range(name: TimelineRangeName, lp: LengthPercent) -> (r: Self)
        ensures
            r.name == name,
            r.lp == Some(lp),
    {
        Self { name, lp: Some(lp) }
    }
}

/// The value of `animation-range-start`.
#[derive(Clone, Debug, PartialEq)]
pub struct GenericAnimationRangeStart<LengthPercent>(pub GenericAnimationRangeValue<LengthPercent>);

pub use self::GenericAnimationRangeStart as AnimationRangeStart;

impl<LengthPercent> Default for AnimationRangeStart<LengthPercent> {
    fn default() -> (r: Self)
        ensures
            r.0.name == TimelineRangeName::Unnamed,
            r.0.lp is None,
    {
        Self(AnimationRangeValue::default())
    }
}

/// The value of `animation-range-end`.
#[derive(Clone, Debug, PartialEq)]
pub struct GenericAnimationRangeEnd<LengthPercent>(pub GenericAnimationRangeValue<LengthPercent>);

pub use self::GenericAnimationRangeEnd as AnimationRangeEnd;

impl<LengthPercent> Default for AnimationRangeEnd<LengthPercent> {
    fn default() -> (r: Self)
        ensures
            r.0.name == TimelineRangeName::Unnamed,
            r.0.lp is None,
    {
        Self(AnimationRangeValue::default())
    }
}

} // verus!
