//! Identifiers and small value types handed in by the scene builder and the
//! resource cache.

use vstd::prelude::*;

verus! {

/// Identity of a primitive template or a clip template. Two uids are equal
/// exactly when the templates have the same content; scrolling does not
/// change a uid.
#[derive(Clone, Copy, Debug, PartialEq, Eq, Structural)]
pub struct ItemUid {
    pub uid: u64,
}

impl ItemUid {
    pub fn new(uid: u64) -> (r: ItemUid)
        ensures
            r.uid == uid,
    {
        ItemUid { uid }
    }

    pub fn get_uid(&self) -> (r: u64)
        ensures
            r == self.uid,
    {
        self.uid
    }
}

/// Number of a frame build.
#[derive(Clone, Copy, Debug, PartialEq, Eq, Structural)]
pub struct FrameId(pub u64);

impl FrameId {
    /// The id that no built frame has.
    pub open spec fn spec_invalid() -> FrameId {
        FrameId(0)
    }

    pub fn invalid() -> (r: FrameId)
        ensures
            r == Self::spec_invalid(),
    {
        FrameId(0)
    }
}

/// Index of a node of the spatial tree.
#[derive(Clone, Copy, Debug, PartialEq, Eq, Structural)]
pub struct SpatialNodeIndex(pub u32);

/// Index of a surface of the frame.
#[derive(Clone, Copy, Debug, PartialEq, Eq, Structural)]
pub struct SurfaceIndex(pub usize);

/// Name space of the keys of one client.
#[derive(Clone, Copy, Debug, PartialEq, Eq, Structural)]
pub struct IdNamespace(pub u32);

/// Key of an image resource.
#[derive(Clone, Copy, Debug, PartialEq, Eq, Structural)]
pub struct ImageKey(pub IdNamespace, pub u32);

impl ImageKey {
    /// The key that no image has.
    pub open spec fn spec_dummy() -> ImageKey {
        ImageKey(IdNamespace(0), 0)
    }

    /// The key that no image has.
    pub fn dummy() -> (r: ImageKey)
        ensures
            r == Self::spec_dummy(),
    {
        ImageKey(IdNamespace(0), 0)
    }

    /// The key as one integer: the name space in the upper half.
    pub open spec fn spec_key(self) -> u64 {
        ((self.0.0 as int) * 0x1_0000_0000 + (self.1 as int)) as u64
    }

    /// The key as one integer, as the tables of this crate are keyed.
    pub fn key(&self) -> (k: u64)
        ensures
            k == self.spec_key(),
    {
        let hi: u64 = self.0.0 as u64;
        let lo: u64 = self.1 as u64;
        hi * 0x1_0000_0000 + lo
    }
}

/// Counter of the replacements of an image's bitmap.
#[derive(Clone, Copy, Debug, PartialEq, Eq, Structural)]
pub struct ImageGeneration(pub u32);

impl ImageGeneration {
    /// The generation of an image that the resource cache does not know.
    pub open spec fn spec_invalid() -> ImageGeneration {
        ImageGeneration(u32::MAX)
    }

    pub fn invalid() -> (r: ImageGeneration)
        ensures
            r == Self::spec_invalid(),
    {
        ImageGeneration(u32::MAX)
    }
}

/// Identity of an animated property.
#[derive(Clone, Copy, Debug, PartialEq, Eq, Structural)]
pub struct PropertyBindingId {
    pub namespace: IdNamespace,
    pub uid: u32,
}

impl PropertyBindingId {
    /// The id as one integer: the name space in the upper half.
    pub open spec fn spec_key(self) -> u64 {
        ((self.namespace.0 as int) * 0x1_0000_0000 + (self.uid as int)) as u64
    }

    /// The id as one integer, as the binding tables are keyed.
    pub fn key(&self) -> (k: u64)
        ensures
            k == self.spec_key(),
    {
        let hi: u64 = self.namespace.0 as u64;
        let lo: u64 = self.uid as u64;
        hi * 0x1_0000_0000 + lo
    }
}

/// The key of an animated property in the display list.
#[derive(Clone, Copy, Debug, PartialEq, Eq, Structural)]
pub struct PropertyBindingKey {
    pub id: PropertyBindingId,
}

/// A property as the display list has it: a constant, or an animated
/// property with the value that holds until it is animated.
#[derive(Clone, Copy, Debug, PartialEq)]
pub enum PropertyBinding<T> {
    Value(T),
    Binding(PropertyBindingKey, T),
}

/// Two binding ids have the same key only if they are the same id.
pub proof fn lemma_binding_key_injective(a: PropertyBindingId, b: PropertyBindingId)
    requires
        a.spec_key() == b.spec_key(),
    ensures
        a == b,
{
}

/// Two image keys have the same integer only if they are the same key.
pub proof fn lemma_image_key_injective(a: ImageKey, b: ImageKey)
    requires
        a.spec_key() == b.spec_key(),
    ensures
        a == b,
{
}

/// A colour with eight bits per channel.
#[derive(Clone, Copy, Debug, PartialEq, Eq, Structural)]
pub struct ColorU {
    pub r: u8,
    pub g: u8,
    pub b: u8,
    pub a: u8,
}

impl ColorU {
    pub fn new(r: u8, g: u8, b: u8, a: u8) -> (c: ColorU)
        ensures
            c == (ColorU { r, g, b, a }),
    {
        ColorU { r, g, b, a }
    }
}

/// A colour whose channels are single-precision numbers, each carried as its
/// 32-bit pattern. Two colours are the same when the patterns are.
#[derive(Clone, Copy, Debug, PartialEq, Eq, Structural)]
pub struct ColorF {
    pub r: u32,
    pub g: u32,
    pub b: u32,
    pub a: u32,
}

impl ColorF {
    pub fn new(r: u32, g: u32, b: u32, a: u32) -> (c: ColorF)
        ensures
            c == (ColorF { r, g, b, a }),
    {
        ColorF { r, g, b, a }
    }
}

} // verus!
