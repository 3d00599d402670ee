//! Dynamic dependencies of a primitive, and the comparison of a primitive of
//! the previous frame with one of the current frame.

use vstd::prelude::*;
use std::collections::HashMap;
use crate::ids::{
    ColorU, ImageGeneration, ImageKey, ItemUid, PropertyBinding, PropertyBindingId,
};
use crate::invalidation::PrimitiveCompareResult;
use crate::invalidation::cached_surface::{
    CachedSurfaceDescriptor, PrimitiveDependencyIndex, PrimitiveDescriptor,
};
use crate::invalidation::dep_stream::{decode_at, decode_dependency};
use crate::invalidation::vert_buffer::VertRange;

verus! {

/// State of an animated property in the current frame.
#[derive(Debug)]
pub struct BindingInfo<T> {
    /// The current value of the property.
    pub value: T,
    /// True if the value was changed, or is new, since the last frame build.
    pub changed: bool,
}

/// What a tile descriptor stores of a property: a constant, or the identity
/// of the animated property that supplies the value.
#[derive(Clone, Copy, Debug, PartialEq, Eq, Structural)]
pub enum Binding<T> {
    Value(T),
    Binding(PropertyBindingId),
}

impl<T: Default> Default for Binding<T> {
    /// The constant that is the default of its type.
    fn default() -> (r: Self)
        ensures
            r matches Binding::Value(v) && call_ensures(T::default, (), v),
    {
        Binding::Value(T::default())
    }
}

impl<T> From<PropertyBinding<T>> for Binding<T> {
    fn from(binding: PropertyBinding<T>) -> (r: Binding<T>) {
        match binding {
            PropertyBinding::Binding(key, _) => Binding::Binding(key.id),
            PropertyBinding::Value(value) => Binding::Value(value),
        }
    }
}

impl<T> vstd::std_specs::convert::FromSpecImpl<PropertyBinding<T>> for Binding<T> {
    open spec fn obeys_from_spec() -> bool {
        true
    }

    /// A constant stays a constant; of an animated property the id is kept
    /// and the value is left to the binding table.
    open spec fn from_spec(binding: PropertyBinding<T>) -> Binding<T> {
        match binding {
            PropertyBinding::Binding(key, _) => Binding::Binding(key.id),
            PropertyBinding::Value(value) => Binding::Value(value),
        }
    }
}

/// An opacity. A constant opacity is a single-precision number, carried as
/// its 32-bit pattern.
pub type OpacityBinding = Binding<u32>;

pub type OpacityBindingInfo = BindingInfo<u32>;

pub type ColorBinding = Binding<ColorU>;

pub type ColorBindingInfo = BindingInfo<ColorU>;

/// An image that a primitive draws, with the generation that was drawn.
#[derive(Clone, Copy, Debug, PartialEq, Eq, Structural)]
pub struct ImageDependency {
    pub key: ImageKey,
    pub generation: ImageGeneration,
}

impl ImageDependency {
    /// The dependency on no image: the key that no image has, with the
    /// generation of an image that the resource cache does not know.
    pub open spec fn spec_invalid() -> ImageDependency {
        ImageDependency { key: ImageKey::spec_dummy(), generation: ImageGeneration::spec_invalid() }
    }

    /// The dependency on no image.
    pub fn invalid() -> (r: ImageDependency)
        ensures
            r == Self::spec_invalid(),
    {
        ImageDependency { key: ImageKey::dummy(), generation: ImageGeneration::invalid() }
    }
}

/// One dynamic dependency of a primitive.
#[derive(Clone, Copy, Debug, PartialEq, Eq, Structural)]
#[allow(inconsistent_fields)]
pub enum PrimitiveDependency {
    OpacityBinding { binding: OpacityBinding },
    ColorBinding { binding: ColorBinding },
    Image { image: ImageDependency },
    /// A clip: the uid says what its shape and mode are, the window holds the
    /// quantised corners that say where it is.
    Clip { prim_uid: ItemUid, vert_range: VertRange },
}

/// The image generations that the resource cache reports in the current
/// frame, keyed by [`ImageKey::key`].
pub struct ResourceCache {
    pub image_generations: HashMap<u64, ImageGeneration>,
}

/// The generation that a table reports for a key: the entry, or the invalid
/// generation where the key has none.
pub open spec fn generation_of(table: Map<u64, ImageGeneration>, key: ImageKey) -> ImageGeneration {
    if table.contains_key(key.spec_key()) {
        table[key.spec_key()]
    } else {
        ImageGeneration::spec_invalid()
    }
}

impl ResourceCache {
    pub fn new() -> (r: ResourceCache)
        ensures
            r.image_generations@ == Map::<u64, ImageGeneration>::empty(),
    {
        ResourceCache { image_generations: HashMap::new() }
    }

    /// Records the current generation of an image.
    pub fn set_image_generation(&mut self, key: ImageKey, generation: ImageGeneration)
        ensures
            final(self).image_generations@ == old(self).image_generations@.insert(
                key.spec_key(),
                generation,
            ),
    {
        self.image_generations.insert(key.key(), generation);
    }

    /// The current generation of an image; the invalid generation for an
    /// image that the cache does not know.
    pub fn get_image_generation(&self, key: ImageKey) -> (r: ImageGeneration)
        ensures
            r == generation_of(self.image_generations@, key),
    {
        let k = key.key();
        match self.image_generations.get(&k) {
            Some(g) => *g,
            None => ImageGeneration::invalid(),
        }
    }
}

/// Whether the animated property `id` counts as changed: it does where its
/// `changed` flag is set, and where the table does not know it.
pub open spec fn binding_changed<T>(table: Map<u64, BindingInfo<T>>, id: PropertyBindingId) -> bool {
    !table.contains_key(id.spec_key()) || table[id.spec_key()].changed
}

/// The coordinates that a window of a vertex buffer holds; `None` for an
/// invalid window and for one that does not lie inside the buffer.
pub open spec fn corner_window(range: VertRange, verts: Seq<i32>) -> Option<Seq<i32>> {
    if range.spec_is_valid() && range.fits(verts.len()) {
        Some(range.window(verts))
    } else {
        None
    }
}

/// The coordinates of a clip: those of its window, and none where the window
/// is invalid or does not lie inside the buffer.
pub open spec fn clip_window(range: VertRange, verts: Seq<i32>) -> Seq<i32> {
    match corner_window(range, verts) {
        Some(w) => w,
        None => Seq::empty(),
    }
}

/// Whether the corners of a primitive are the same in both frames. Corners
/// that are missing on either side match nothing.
pub open spec fn corners_match(
    prev: VertRange,
    prev_verts: Seq<i32>,
    curr: VertRange,
    curr_verts: Seq<i32>,
) -> bool {
    &&& corner_window(prev, prev_verts) is Some
    &&& corner_window(prev, prev_verts) == corner_window(curr, curr_verts)
}

/// A pair of positions, one in the previous and one in the current list of
/// primitives, under which a comparison result is remembered.
#[derive(Clone, Copy, Debug, PartialEq, Eq, Structural)]
pub struct PrimitiveComparisonKey {
    pub prev_index: PrimitiveDependencyIndex,
    pub curr_index: PrimitiveDependencyIndex,
}

impl PrimitiveComparisonKey {
    /// The pair as one integer: the previous position in the upper half.
    pub open spec fn spec_key(self) -> u64 {
        ((self.prev_index.0 as int) * 0x1_0000_0000 + (self.curr_index.0 as int)) as u64
    }

    /// The pair as one integer, as the table of remembered results is keyed.
    pub fn key(&self) -> (k: u64)
        ensures
            k == self.spec_key(),
    {
        let hi: u64 = self.prev_index.0 as u64;
        let lo: u64 = self.curr_index.0 as u64;
        hi * 0x1_0000_0000 + lo
    }
}

/// Two pairs have the same key only if they are the same pair.
pub proof fn lemma_comparison_key_injective(a: PrimitiveComparisonKey, b: PrimitiveComparisonKey)
    requires
        a.spec_key() == b.spec_key(),
    ensures
        a == b,
{
}

/// Compares primitives of the previous descriptor with primitives of the
/// current one, reading the tables of the current frame.
pub struct PrimitiveComparer<'a> {
    prev: &'a CachedSurfaceDescriptor,
    curr: &'a CachedSurfaceDescriptor,
    resource_cache: &'a ResourceCache,
    opacity_bindings: &'a HashMap<u64, OpacityBindingInfo>,
    color_bindings: &'a HashMap<u64, ColorBindingInfo>,
}

impl<'a> PrimitiveComparer<'a> {
    /// The descriptor of the previous frame.
    pub closed spec fn prev(&self) -> &CachedSurfaceDescriptor {
        self.prev
    }

    /// The descriptor of the current frame.
    pub closed spec fn curr(&self) -> &CachedSurfaceDescriptor {
        self.curr
    }

    /// The current image generations, keyed by [`ImageKey::key`].
    pub closed spec fn generations(&self) -> Map<u64, ImageGeneration> {
        self.resource_cache.image_generations@
    }

    /// The opacity bindings, keyed by [`PropertyBindingId::key`].
    pub closed spec fn opacity(&self) -> Map<u64, OpacityBindingInfo> {
        self.opacity_bindings@
    }

    /// The colour bindings, keyed by [`PropertyBindingId::key`].
    pub closed spec fn color(&self) -> Map<u64, ColorBindingInfo> {
        self.color_bindings@
    }

    /// How one dependency of the previous frame relates to the one at the
    /// same place in the current frame.
    ///
    /// Two clips differ by uid or by corners. Two images differ by key or
    /// generation, and also where the resource cache no longer reports the
    /// recorded generation. Two bindings differ by value, and also where the
    /// current one is an animated property that counts as changed.
    /// Dependencies of two kinds differ as descriptors.
    pub open spec fn spec_compare_dep(
        &self,
        prev: PrimitiveDependency,
        curr: PrimitiveDependency,
    ) -> PrimitiveCompareResult {
        match (prev, curr) {
            (
                PrimitiveDependency::Clip { prim_uid: prev_uid, vert_range: prev_range },
                PrimitiveDependency::Clip { prim_uid: curr_uid, vert_range: curr_range },
            ) => {
                if prev_uid != curr_uid || clip_window(prev_range, self.prev().vert_data@)
                    != clip_window(curr_range, self.curr().vert_data@) {
                    PrimitiveCompareResult::Clip
                } else {
                    PrimitiveCompareResult::Equal
                }
            },
            (
                PrimitiveDependency::Image { image: prev_image },
                PrimitiveDependency::Image { image: curr_image },
            ) => {
                if prev_image != curr_image || generation_of(self.generations(), curr_image.key)
                    != curr_image.generation {
                    PrimitiveCompareResult::Image
                } else {
                    PrimitiveCompareResult::Equal
                }
            },
            (
                PrimitiveDependency::OpacityBinding { binding: prev_binding },
                PrimitiveDependency::OpacityBinding { binding: curr_binding },
            ) => {
                if prev_binding != curr_binding || (curr_binding matches Binding::Binding(id)
                    && binding_changed(self.opacity(), id)) {
                    PrimitiveCompareResult::OpacityBinding
                } else {
                    PrimitiveCompareResult::Equal
                }
            },
            (
                PrimitiveDependency::ColorBinding { binding: prev_binding },
                PrimitiveDependency::ColorBinding { binding: curr_binding },
            ) => {
                if prev_binding != curr_binding || (curr_binding matches Binding::Binding(id)
                    && binding_changed(self.color(), id)) {
                    PrimitiveCompareResult::ColorBinding
                } else {
                    PrimitiveCompareResult::Equal
                }
            },
            _ => PrimitiveCompareResult::Descriptor,
        }
    }

    /// The relation of `n` records of the previous stream from byte
    /// `prev_at` to `n` records of the current stream from byte `curr_at`:
    /// that of the first pair that is not equal. Bytes that are no record
    /// differ as descriptors.
    pub open spec fn spec_compare_deps(&self, prev_at: int, curr_at: int, n: nat)
        -> PrimitiveCompareResult
        decreases n,
    {
        if n == 0 {
            PrimitiveCompareResult::Equal
        } else {
            match (
                decode_at(self.prev().dep_data@, prev_at),
                decode_at(self.curr().dep_data@, curr_at),
            ) {
                (Some((prev_dep, prev_len)), Some((curr_dep, curr_len))) => {
                    let r = self.spec_compare_dep(prev_dep, curr_dep);
                    if r != PrimitiveCompareResult::Equal {
                        r
                    } else {
                        self.spec_compare_deps(
                            prev_at + prev_len,
                            curr_at + curr_len,
                            (n - 1) as nat,
                        )
                    }
                },
                _ => PrimitiveCompareResult::Descriptor,
            }
        }
    }

    /// How a primitive of the previous frame relates to one of the current
    /// frame. The checks, in this order: the uid, the primitive's corners,
    /// the coverage corners, the number of dependencies (each a difference
    /// of descriptors), then the dependencies pair by pair.
    pub open spec fn spec_compare_prim(
        &self,
        prev_desc: PrimitiveDescriptor,
        curr_desc: PrimitiveDescriptor,
    ) -> PrimitiveCompareResult {
        if prev_desc.prim_uid != curr_desc.prim_uid {
            PrimitiveCompareResult::Descriptor
        } else if !corners_match(
            prev_desc.prim_corners,
            self.prev().vert_data@,
            curr_desc.prim_corners,
            self.curr().vert_data@,
        ) {
            PrimitiveCompareResult::Descriptor
        } else if !corners_match(
            prev_desc.coverage_corners,
            self.prev().vert_data@,
            curr_desc.coverage_corners,
            self.curr().vert_data@,
        ) {
            PrimitiveCompareResult::Descriptor
        } else if prev_desc.dep_count != curr_desc.dep_count {
            PrimitiveCompareResult::Descriptor
        } else {
            self.spec_compare_deps(
                prev_desc.dep_offset as int,
                curr_desc.dep_offset as int,
                prev_desc.dep_count as nat,
            )
        }
    }

    /// The comparer of two descriptors that reads the given tables.
    pub closed spec fn spec_new(
        prev: &'a CachedSurfaceDescriptor,
        curr: &'a CachedSurfaceDescriptor,
        resource_cache: &'a ResourceCache,
        opacity_bindings: &'a HashMap<u64, OpacityBindingInfo>,
        color_bindings: &'a HashMap<u64, ColorBindingInfo>,
    ) -> PrimitiveComparer<'a> {
        PrimitiveComparer { prev, curr, resource_cache, opacity_bindings, color_bindings }
    }

    /// A comparer reads what it was made of.
    pub proof fn lemma_spec_new(
        prev: &'a CachedSurfaceDescriptor,
        curr: &'a CachedSurfaceDescriptor,
        resource_cache: &'a ResourceCache,
        opacity_bindings: &'a HashMap<u64, OpacityBindingInfo>,
        color_bindings: &'a HashMap<u64, ColorBindingInfo>,
    )
        ensures
            ({
                let r = Self::spec_new(
                    prev,
                    curr,
                    resource_cache,
                    opacity_bindings,
                    color_bindings,
                );
                &&& r.prev() == prev
                &&& r.curr() == curr
                &&& r.generations() == resource_cache.image_generations@
                &&& r.opacity() == opacity_bindings@
                &&& r.color() == color_bindings@
            }),
    {
    }

    pub fn new(
        prev: &'a CachedSurfaceDescriptor,
        curr: &'a CachedSurfaceDescriptor,
        resource_cache: &'a ResourceCache,
        opacity_bindings: &'a HashMap<u64, OpacityBindingInfo>,
        color_bindings: &'a HashMap<u64, ColorBindingInfo>,
    ) -> (r: Self)
        ensures
            r == Self::spec_new(prev, curr, resource_cache, opacity_bindings, color_bindings),
            r.prev() == prev,
            r.curr() == curr,
            r.generations() == resource_cache.image_generations@,
            r.opacity() == opacity_bindings@,
            r.color() == color_bindings@,
    {
        PrimitiveComparer { prev, curr, resource_cache, opacity_bindings, color_bindings }
    }

    /// Compares a primitive of the previous frame with one of the current
    /// frame.
    pub fn compare_prim(&self, prev_desc: &PrimitiveDescriptor, curr_desc: &PrimitiveDescriptor) -> (r:
        PrimitiveCompareResult)
        ensures
            r == self.spec_compare_prim(*prev_desc, *curr_desc),
    {
        if prev_desc.prim_uid.uid != curr_desc.prim_uid.uid {
            return PrimitiveCompareResult::Descriptor;
        }
        if !prev_desc.prim_corners.is_valid() || !windows_equal(
            &self.prev.vert_data,
            prev_desc.prim_corners,
            &self.curr.vert_data,
            curr_desc.prim_corners,
        ) {
            return PrimitiveCompareResult::Descriptor;
        }
        if !prev_desc.coverage_corners.is_valid() || !windows_equal(
            &self.prev.vert_data,
            prev_desc.coverage_corners,
            &self.curr.vert_data,
            curr_desc.coverage_corners,
        ) {
            return PrimitiveCompareResult::Descriptor;
        }
        if prev_desc.dep_count != curr_desc.dep_count {
            return PrimitiveCompareResult::Descriptor;
        }
        let n = prev_desc.dep_count;
        let mut prev_at: usize = prev_desc.dep_offset as usize;
        let mut curr_at: usize = curr_desc.dep_offset as usize;
        let mut i: u32 = 0;
        while i < n
            invariant
                i <= n,
                self.spec_compare_prim(*prev_desc, *curr_desc) == self.spec_compare_deps(
                    prev_at as int,
                    curr_at as int,
                    (n - i) as nat,
                ),
            decreases n - i,
        {
            let prev_dep = decode_dependency(self.prev.dep_data.as_slice(), prev_at);
            let curr_dep = decode_dependency(self.curr.dep_data.as_slice(), curr_at);
            match (prev_dep, curr_dep) {
                (Some((p, prev_next)), Some((c, curr_next))) => {
                    let r = self.compare_dep(&p, &c);
                    if !matches!(r, PrimitiveCompareResult::Equal) {
                        return r;
                    }
                    prev_at = prev_next;
                    curr_at = curr_next;
                },
                _ => {
                    return PrimitiveCompareResult::Descriptor;
                },
            }
            i += 1;
        }
        PrimitiveCompareResult::Equal
    }

    /// Compares one dependency of the previous frame with the one at the
    /// same place in the current frame.
    pub fn compare_dep(&self, prev: &PrimitiveDependency, curr: &PrimitiveDependency) -> (r:
        PrimitiveCompareResult)
        ensures
            r == self.spec_compare_dep(*prev, *curr),
    {
        match (prev, curr) {
            (
                PrimitiveDependency::Clip { prim_uid: prev_uid, vert_range: prev_range },
                PrimitiveDependency::Clip { prim_uid: curr_uid, vert_range: curr_range },
            ) => {
                if prev_uid.uid != curr_uid.uid {
                    return PrimitiveCompareResult::Clip;
                }
                let prev_range = usable_window(*prev_range, &self.prev.vert_data);
                let curr_range = usable_window(*curr_range, &self.curr.vert_data);
                if windows_same(&self.prev.vert_data, prev_range, &self.curr.vert_data, curr_range) {
                    PrimitiveCompareResult::Equal
                } else {
                    PrimitiveCompareResult::Clip
                }
            },
            (
                PrimitiveDependency::Image { image: prev_image },
                PrimitiveDependency::Image { image: curr_image },
            ) => {
                if prev_image.key.0.0 != curr_image.key.0.0 || prev_image.key.1
                    != curr_image.key.1 || prev_image.generation.0 != curr_image.generation.0 {
                    return PrimitiveCompareResult::Image;
                }
                if self.resource_cache.get_image_generation(curr_image.key).0
                    != curr_image.generation.0 {
                    return PrimitiveCompareResult::Image;
                }
                PrimitiveCompareResult::Equal
            },
            (
                PrimitiveDependency::OpacityBinding { binding: prev_binding },
                PrimitiveDependency::OpacityBinding { binding: curr_binding },
            ) => {
                match (prev_binding, curr_binding) {
                    (Binding::Value(p), Binding::Value(c)) => if *p == *c {
                        PrimitiveCompareResult::Equal
                    } else {
                        PrimitiveCompareResult::OpacityBinding
                    },
                    (Binding::Binding(p), Binding::Binding(c)) => {
                        if p.namespace.0 != c.namespace.0 || p.uid != c.uid {
                            return PrimitiveCompareResult::OpacityBinding;
                        }
                        if is_changed(self.opacity_bindings, c) {
                            PrimitiveCompareResult::OpacityBinding
                        } else {
                            PrimitiveCompareResult::Equal
                        }
                    },
                    _ => PrimitiveCompareResult::OpacityBinding,
                }
            },
            (
                PrimitiveDependency::ColorBinding { binding: prev_binding },
                PrimitiveDependency::ColorBinding { binding: curr_binding },
            ) => {
                match (prev_binding, curr_binding) {
                    (Binding::Value(p), Binding::Value(c)) => if p.r == c.r && p.g == c.g && p.b
                        == c.b && p.a == c.a {
                        PrimitiveCompareResult::Equal
                    } else {
                        PrimitiveCompareResult::ColorBinding
                    },
                    (Binding::Binding(p), Binding::Binding(c)) => {
                        if p.namespace.0 != c.namespace.0 || p.uid != c.uid {
                            return PrimitiveCompareResult::ColorBinding;
                        }
                        if is_changed(self.color_bindings, c) {
                            PrimitiveCompareResult::ColorBinding
                        } else {
                            PrimitiveCompareResult::Equal
                        }
                    },
                    _ => PrimitiveCompareResult::ColorBinding,
                }
            },
            _ => PrimitiveCompareResult::Descriptor,
        }
    }
}

/// Whether the animated property `id` counts as changed in `table`.
fn is_changed<T>(table: &HashMap<u64, BindingInfo<T>>, id: &PropertyBindingId) -> (r: bool)
    ensures
        r == binding_changed(table@, *id),
{
    let k = id.key();
    match table.get(&k) {
        Some(info) => info.changed,
        None => true,
    }
}

/// The window itself where it is valid and inside the buffer, else the
/// invalid window.
fn usable_window(range: VertRange, verts: &Vec<i32>) -> (r: VertRange)
    ensures
        r.fits(verts@.len()),
        r.window(verts@) == clip_window(range, verts@),
{
    let end: u64 = range.offset as u64 + range.count as u64;
    if range.is_valid() && end <= verts.len() as u64 {
        range
    } else {
        assert(VertRange::spec_invalid().window(verts@) =~= Seq::<i32>::empty());
        VertRange::invalid()
    }
}

/// Whether two windows that lie inside their buffers hold the same
/// coordinates.
fn windows_same(a: &Vec<i32>, a_range: VertRange, b: &Vec<i32>, b_range: VertRange) -> (r: bool)
    requires
        a_range.fits(a@.len()),
        b_range.fits(b@.len()),
    ensures
        r == (a_range.window(a@) == b_range.window(b@)),
{
    let ghost wa = a_range.window(a@);
    let ghost wb = b_range.window(b@);
    if a_range.count != b_range.count {
        assert(wa.len() != wb.len());
        return false;
    }
    let n: usize = a_range.count as usize;
    let a0: usize = a_range.offset as usize;
    let b0: usize = b_range.offset as usize;
    let a_len = a.len();
    let b_len = b.len();
    let mut i: usize = 0;
    while i < n
        invariant
            i <= n,
            a0 + n <= a_len,
            b0 + n <= b_len,
            a_len == a@.len(),
            b_len == b@.len(),
            wa == a_range.window(a@),
            wb == b_range.window(b@),
            n == a_range.count,
            n == b_range.count,
            a0 == a_range.offset,
            b0 == b_range.offset,
            forall|j: int| 0 <= j < i ==> wa[j] == wb[j],
        decreases n - i,
    {
        if a[a0 + i] != b[b0 + i] {
            assert(wa[i as int] != wb[i as int]);
            return false;
        }
        i += 1;
    }
    assert(wa =~= wb);
    true
}

/// Whether the corners of a window of `a` are there and are the corners of a
/// window of `b`.
fn windows_equal(a: &Vec<i32>, a_range: VertRange, b: &Vec<i32>, b_range: VertRange) -> (r: bool)
    requires
        a_range.spec_is_valid(),
    ensures
        r == corners_match(a_range, a@, b_range, b@),
{
    let a_end: u64 = a_range.offset as u64 + a_range.count as u64;
    let b_end: u64 = b_range.offset as u64 + b_range.count as u64;
    if a_end > a.len() as u64 || !b_range.is_valid() || b_end > b.len() as u64 {
        return false;
    }
    windows_same(a, a_range, b, b_range)
}

} // verus!
