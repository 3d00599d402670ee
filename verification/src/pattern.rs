//! The kinds of patterns that a shader can fill a primitive with, and the
//! inputs that a pattern hands to the shader.

use vstd::prelude::*;

verus! {

/// What a shader fills a primitive with.
#[derive(Clone, Copy, Debug, PartialEq, Eq, Structural)]
pub enum PatternKind {
    ColorOrTexture,
    Gradient,
    Repeat,
    Mask,
}

/// The number of pattern kinds.
pub const NUM_PATTERNS: u32 = 4;

impl PatternKind {
    /// The number that the shaders know the kind by.
    pub open spec fn spec_to_u32(self) -> u32 {
        match self {
            PatternKind::ColorOrTexture => 0,
            PatternKind::Gradient => 1,
            PatternKind::Repeat => 2,
            PatternKind::Mask => 3,
        }
    }

    /// The kind with the given number.
    pub fn from_u32(val: u32) -> (r: PatternKind)
        requires
            val < NUM_PATTERNS,
        ensures
            r.spec_to_u32() == val,
    {
        if val == 0 {
            PatternKind::ColorOrTexture
        } else if val == 1 {
            PatternKind::Gradient
        } else if val == 2 {
            PatternKind::Repeat
        } else {
            PatternKind::Mask
        }
    }

    /// The number that the shaders know the kind by.
    pub fn to_u32(self) -> (r: u32)
        ensures
            r == self.spec_to_u32(),
            r < NUM_PATTERNS,
    {
        match self {
            PatternKind::ColorOrTexture => 0,
            PatternKind::Gradient => 1,
            PatternKind::Repeat => 2,
            PatternKind::Mask => 3,
        }
    }
}

/// Every kind has a number below [`NUM_PATTERNS`], and no two kinds have the
/// same.
pub proof fn lemma_pattern_kind_numbers(a: PatternKind, b: PatternKind)
    ensures
        a.spec_to_u32() < NUM_PATTERNS,
        a.spec_to_u32() == b.spec_to_u32() ==> a == b,
{
}

/// A 64-bit payload for the pattern-specific logic of the shader. Patterns
/// mostly use it as an offset into a buffer of the GPU.
#[derive(Clone, Copy, Debug, PartialEq, Eq, Structural)]
pub struct PatternShaderInput(pub i32, pub i32);

impl Default for PatternShaderInput {
    fn default() -> (r: Self)
        ensures
            r == PatternShaderInput(0, 0),
    {
        PatternShaderInput(0, 0)
    }
}

/// Position of a render task in the graph of the frame.
#[derive(Clone, Copy, Debug, PartialEq, Eq, Structural)]
pub struct RenderTaskId {
    pub index: u32,
}

impl RenderTaskId {
    /// The id that no task has.
    pub open spec fn spec_invalid() -> RenderTaskId {
        RenderTaskId { index: u32::MAX }
    }

    pub fn invalid() -> (r: RenderTaskId)
        ensures
            r == Self::spec_invalid(),
    {
        RenderTaskId { index: u32::MAX }
    }
}

/// The render task whose output a pattern samples.
#[derive(Clone, Copy, Debug, PartialEq, Eq, Structural)]
pub struct PatternTextureInput {
    pub task_id: RenderTaskId,
}

impl Default for PatternTextureInput {
    fn default() -> (r: Self)
        ensures
            r.task_id == RenderTaskId::spec_invalid(),
    {
        PatternTextureInput { task_id: RenderTaskId::invalid() }
    }
}

impl PatternTextureInput {
    pub fn new(task_id: RenderTaskId) -> (r: Self)
        ensures
            r.task_id == task_id,
    {
        PatternTextureInput { task_id }
    }
}

} // verus!
