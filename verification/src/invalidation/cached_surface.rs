//! The dependency descriptor of a tile, and the tile's validity from frame
//! to frame.

use vstd::prelude::*;
use std::collections::HashMap;
use crate::ids::{ColorF, FrameId, ItemUid, SurfaceIndex};
use crate::invalidation::{InvalidationReason, PrimitiveCompareResult};
use crate::invalidation::compare::{
    ColorBindingInfo, OpacityBindingInfo, PrimitiveComparer, ResourceCache,
};
use crate::invalidation::quadtree::{cache_agrees, first_reason, pair_key, PrimEntry, TileNode};
use crate::invalidation::compare::{
    Binding, ColorBinding, ImageDependency, OpacityBinding, PrimitiveDependency,
};
use crate::invalidation::dep_lists::{
    clip_items, image_items, opacity_items, ClipList, ImageList, OpacityBindingList,
};
use crate::invalidation::dep_stream::{
    decode_records, encode_dep, encode_dependency, encode_records, lemma_decode_encode_records,
    lemma_decode_records_prefix, lemma_encode_len, lemma_encode_records_push, MAX_RECORD_LEN,
};
use crate::invalidation::vert_buffer::{
    can_push, clamp_points, flatten, CornersCache, VertRange,
};
use crate::units::{Box2D, PictureBox2D, PictureRect, RasterPoint, RasterRect};

verus! {

/// What a tile keeps of one primitive.
#[derive(Clone, Copy, Debug, PartialEq, Eq, Structural)]
pub struct PrimitiveDescriptor {
    /// Bounds in picture space, clamped to the tile. Used to accumulate the
    /// dirty rectangle; not compared.
    pub prim_clip_box: PictureBox2D,
    /// Offset of the primitive's first record in the dependency stream.
    pub dep_offset: u32,
    /// Number of the primitive's records in the dependency stream.
    pub dep_count: u32,
    /// Identity of the primitive's template.
    pub prim_uid: ItemUid,
    /// Window of the vertex buffer with the corners of the primitive's
    /// rectangle.
    pub prim_corners: VertRange,
    /// Window of the vertex buffer with the corners of the part of the
    /// rectangle that its clip leaves. Kept apart from `prim_corners`: a
    /// primitive whose visible part is pinned by the clip can still change
    /// its own rectangle, and with it what it samples.
    pub coverage_corners: VertRange,
}

/// Position of a primitive in the list of a tile descriptor.
#[derive(Clone, Copy, Debug, PartialEq, Eq, Structural)]
pub struct PrimitiveDependencyIndex(pub u32);

/// The content of a tile in a form that can be compared: the primitives in
/// the order of the scene, their quantised corners, and their dynamic
/// dependencies.
pub struct CachedSurfaceDescriptor {
    /// The primitives, in the order in which the scene builder walked them.
    pub prims: Vec<PrimitiveDescriptor>,
    /// The part of the tile, in picture space, that holds valid pixels.
    pub local_valid_rect: PictureRect,
    /// The last frame in which the dependencies were rebuilt.
    pub last_updated_frame_id: FrameId,
    /// The dependency stream.
    pub dep_data: Vec<u8>,
    /// The vertex buffer: quantised raster-space coordinates.
    pub vert_data: Vec<i32>,
}

/// The records of all clips in a list of dependencies refer to windows of 4
/// or 8 coordinates inside a vertex buffer of `len` coordinates, or are
/// invalid.
pub open spec fn clips_covered(deps: Seq<PrimitiveDependency>, len: nat) -> bool {
    forall|k: int|
        0 <= k < deps.len() ==> (#[trigger] deps[k] matches PrimitiveDependency::Clip {
            vert_range,
            ..
        } ==> vert_range.covers(len))
}

impl CachedSurfaceDescriptor {
    /// The byte after the records of primitive `i`: where the records of the
    /// next primitive start, or the end of the stream.
    pub open spec fn deps_end(&self, i: int) -> int {
        if i + 1 < self.prims@.len() {
            self.prims@[i + 1].dep_offset as int
        } else {
            self.dep_data@.len() as int
        }
    }

    /// The records of primitive `i`, where its part of the stream decodes.
    pub open spec fn deps_of(&self, i: int) -> Option<(Seq<PrimitiveDependency>, nat)> {
        let prim = self.prims@[i];
        if prim.dep_offset <= self.dep_data@.len() {
            decode_records(self.dep_data@.skip(prim.dep_offset as int), prim.dep_count as nat)
        } else {
            None
        }
    }

    /// Primitive `i` is consistent with the two buffers: its two windows lie
    /// inside the vertex buffer and have 0, 4 or 8 coordinates; its records
    /// decode, fill the stream exactly up to the next primitive's, and their
    /// clip windows lie inside the vertex buffer.
    pub open spec fn prim_wf(&self, i: int) -> bool {
        let prim = self.prims@[i];
        &&& prim.prim_corners.covers(self.vert_data@.len())
        &&& prim.coverage_corners.covers(self.vert_data@.len())
        &&& self.deps_of(i) matches Some(d)
        &&& prim.dep_offset + d.1 == self.deps_end(i)
        &&& clips_covered(d.0, self.vert_data@.len())
    }

    /// The descriptor is consistent: the buffers are addressable by 32-bit
    /// offsets, the stream starts with the records of the first primitive,
    /// and every primitive is consistent with the buffers.
    pub open spec fn wf(&self) -> bool {
        &&& self.prims@.len() <= u32::MAX
        &&& self.dep_data@.len() <= u32::MAX
        &&& self.vert_data@.len() <= u32::MAX
        &&& self.prims@.len() == 0 ==> self.dep_data@.len() == 0
        &&& self.prims@.len() > 0 ==> self.prims@[0].dep_offset == 0
        &&& forall|i: int| 0 <= i < self.prims@.len() ==> #[trigger] self.prim_wf(i)
    }

    /// Nothing but an updated frame id sets the descriptor apart from a
    /// cleared one.
    pub open spec fn is_clear(&self) -> bool {
        &&& self.prims@.len() == 0
        &&& self.dep_data@.len() == 0
        &&& self.vert_data@.len() == 0
        &&& self.local_valid_rect == Box2D::spec_zero()
    }

    /// The same primitives, buffers, valid rectangle and frame id.
    pub open spec fn same_as(&self, other: &CachedSurfaceDescriptor) -> bool {
        &&& self.prims@ == other.prims@
        &&& self.dep_data@ == other.dep_data@
        &&& self.vert_data@ == other.vert_data@
        &&& self.local_valid_rect == other.local_valid_rect
        &&& self.last_updated_frame_id == other.last_updated_frame_id
    }

    pub fn new() -> (r: CachedSurfaceDescriptor)
        ensures
            r.is_clear(),
            r.last_updated_frame_id == FrameId::spec_invalid(),
            r.wf(),
    {
        CachedSurfaceDescriptor {
            local_valid_rect: Box2D::zero(),
            dep_data: Vec::new(),
            vert_data: Vec::new(),
            prims: Vec::new(),
            last_updated_frame_id: FrameId::invalid(),
        }
    }

    /// Empties the descriptor for a rebuild. The buffers keep their
    /// allocations, the frame id stays.
    pub fn clear(&mut self)
        ensures
            final(self).is_clear(),
            final(self).last_updated_frame_id == old(self).last_updated_frame_id,
            final(self).wf(),
    {
        self.local_valid_rect = Box2D::zero();
        self.prims.clear();
        self.dep_data.clear();
        self.vert_data.clear();
    }
}

/// What is known of one primitive before it is added to the tiles that it
/// touches: its identity, its bounds, the windows of its corners in the
/// scratch of the corners cache, and its dynamic dependencies.
pub struct PrimitiveDependencyInfo {
    /// The bounds of the clipped primitive in picture space.
    pub prim_clip_box: PictureBox2D,
    /// The images that the primitive draws.
    pub images: ImageList,
    /// The opacities that the primitive is drawn with.
    pub opacity_bindings: OpacityBindingList,
    /// The colour that the primitive is drawn with, if it depends on one.
    pub color_binding: Option<ColorBinding>,
    /// Identity of the primitive's template. Scrolling does not change it.
    pub prim_uid: ItemUid,
    /// Window of the scratch with the corners of the primitive's rectangle.
    pub prim_scratch: VertRange,
    /// Window of the scratch with the corners of the part of the rectangle
    /// that the clip leaves.
    pub cov_scratch: VertRange,
    /// The clips: uid and window of the scratch with the clip's corners.
    pub clips: ClipList,
}

impl PrimitiveDependencyInfo {
    /// The number of records that the primitive adds to a dependency stream.
    pub open spec fn dep_total(&self) -> nat {
        clip_items(self.clips).len() + image_items(self.images).len() + opacity_items(
            self.opacity_bindings,
        ).len() + if self.color_binding is Some {
            1nat
        } else {
            0nat
        }
    }

    /// A primitive without dependencies and without corners.
    pub fn new(prim_uid: ItemUid, prim_clip_box: PictureBox2D) -> (r: PrimitiveDependencyInfo)
        ensures
            r.prim_uid == prim_uid,
            r.prim_clip_box == prim_clip_box,
            r.color_binding is None,
            r.prim_scratch == VertRange::spec_invalid(),
            r.cov_scratch == VertRange::spec_invalid(),
            image_items(r.images) == Seq::<ImageDependency>::empty(),
            opacity_items(r.opacity_bindings) == Seq::<OpacityBinding>::empty(),
            clip_items(r.clips) == Seq::<(ItemUid, VertRange)>::empty(),
    {
        PrimitiveDependencyInfo {
            prim_clip_box,
            images: ImageList::new(),
            opacity_bindings: OpacityBindingList::new(),
            color_binding: None,
            prim_uid,
            prim_scratch: VertRange::invalid(),
            cov_scratch: VertRange::invalid(),
            clips: ClipList::new(),
        }
    }
}

/// A vertex buffer after the points of a scratch window were pushed to it,
/// clamped to a rectangle or as they are, with the window that they have in
/// the buffer. Where the window cannot be pushed the buffer is as before and
/// the window is invalid.
pub open spec fn pushed_verts(
    scratch: Seq<RasterPoint>,
    range: VertRange,
    clamp: Option<RasterRect>,
    verts: Seq<i32>,
) -> (Seq<i32>, VertRange) {
    if can_push(range, scratch.len(), verts.len()) {
        let points = match clamp {
            Some(rect) => clamp_points(range.window(scratch), rect),
            None => range.window(scratch),
        };
        (
            verts + flatten(points),
            VertRange { offset: verts.len() as u32, count: (2 * range.count) as u32 },
        )
    } else {
        (verts, VertRange::spec_invalid())
    }
}

/// A vertex buffer after the corners of the first `n` clips were pushed to
/// it, clamped like the corners of the primitive: a clip that changes only
/// outside the tile leaves the same corners behind.
pub open spec fn clip_verts(
    scratch: Seq<RasterPoint>,
    clips: Seq<(ItemUid, VertRange)>,
    clamp: Option<RasterRect>,
    verts: Seq<i32>,
    n: nat,
) -> Seq<i32>
    decreases n,
{
    if n == 0 {
        verts
    } else {
        pushed_verts(
            scratch,
            clips[n - 1].1,
            clamp,
            clip_verts(scratch, clips, clamp, verts, (n - 1) as nat),
        ).0
    }
}

/// The dependencies that stand for the first `n` clips.
pub open spec fn clip_deps(
    scratch: Seq<RasterPoint>,
    clips: Seq<(ItemUid, VertRange)>,
    clamp: Option<RasterRect>,
    verts: Seq<i32>,
    n: nat,
) -> Seq<PrimitiveDependency>
    decreases n,
{
    if n == 0 {
        Seq::empty()
    } else {
        clip_deps(scratch, clips, clamp, verts, (n - 1) as nat).push(
            PrimitiveDependency::Clip {
                prim_uid: clips[n - 1].0,
                vert_range: pushed_verts(
                    scratch,
                    clips[n - 1].1,
                    clamp,
                    clip_verts(scratch, clips, clamp, verts, (n - 1) as nat),
                ).1,
            },
        )
    }
}

pub open spec fn image_deps(images: Seq<ImageDependency>) -> Seq<PrimitiveDependency> {
    Seq::new(images.len(), |k: int| PrimitiveDependency::Image { image: images[k] })
}

pub open spec fn opacity_deps(bindings: Seq<OpacityBinding>) -> Seq<PrimitiveDependency> {
    Seq::new(bindings.len(), |k: int| PrimitiveDependency::OpacityBinding { binding: bindings[k] })
}

pub open spec fn color_deps(binding: Option<ColorBinding>) -> Seq<PrimitiveDependency> {
    match binding {
        Some(binding) => seq![PrimitiveDependency::ColorBinding { binding }],
        None => Seq::empty(),
    }
}

/// What adding one primitive appends to a descriptor.
pub struct Appended {
    /// The vertex buffer after the primitive was added.
    pub verts: Seq<i32>,
    /// The dependencies of the primitive: its clips in their order, then its
    /// images, then its opacities, then its colour.
    pub deps: Seq<PrimitiveDependency>,
    /// The descriptor of the primitive.
    pub prim: PrimitiveDescriptor,
}

impl CachedSurfaceDescriptor {
    /// The buffers have room for the primitive: the list of primitives and
    /// the dependency stream stay addressable by 32-bit offsets.
    pub open spec fn can_add(&self, info: &PrimitiveDependencyInfo) -> bool {
        &&& self.prims@.len() < u32::MAX
        &&& self.dep_data@.len() + MAX_RECORD_LEN * info.dep_total() <= u32::MAX
    }

    /// Whether the buffers have room for the primitive.
    pub fn has_room(&self, info: &PrimitiveDependencyInfo) -> (r: bool)
        ensures
            r == self.can_add(info),
    {
        if self.prims.len() >= 0xffff_ffff || self.dep_data.len() > 0xffff_ffff {
            return false;
        }
        let room: usize = (0xffff_ffff - self.dep_data.len()) / MAX_RECORD_LEN;
        let clips = info.clips.as_slice().len();
        let images = info.images.as_slice().len();
        let opacities = info.opacity_bindings.as_slice().len();
        let color: usize = if info.color_binding.is_some() {
            1
        } else {
            0
        };
        clips <= room && images <= room - clips && opacities <= room - clips - images && color
            <= room - clips - images - opacities
    }

    /// What adding `info` appends, with the scratch of the corners cache as
    /// it is, the corners of the primitive, of its coverage and of its clips
    /// clamped to `clamp` where that is given, and the bounds clamped to the
    /// tile.
    pub open spec fn appended(
        &self,
        info: &PrimitiveDependencyInfo,
        scratch: Seq<RasterPoint>,
        clamp: Option<RasterRect>,
        local_tile_rect: PictureRect,
    ) -> Appended {
        let prim = pushed_verts(scratch, info.prim_scratch, clamp, self.vert_data@);
        let coverage = pushed_verts(scratch, info.cov_scratch, clamp, prim.0);
        let clips = clip_items(info.clips);
        let deps = clip_deps(scratch, clips, clamp, coverage.0, clips.len()) + image_deps(
            image_items(info.images),
        ) + opacity_deps(opacity_items(info.opacity_bindings)) + color_deps(info.color_binding);
        Appended {
            verts: clip_verts(scratch, clips, clamp, coverage.0, clips.len()),
            deps,
            prim: PrimitiveDescriptor {
                prim_clip_box: info.prim_clip_box.spec_clamp_to(local_tile_rect),
                dep_offset: self.dep_data@.len() as u32,
                dep_count: deps.len() as u32,
                prim_uid: info.prim_uid,
                prim_corners: prim.1,
                coverage_corners: coverage.1,
            },
        }
    }

    /// `after` is this descriptor with `info` added.
    pub open spec fn added(
        &self,
        after: &CachedSurfaceDescriptor,
        info: &PrimitiveDependencyInfo,
        scratch: Seq<RasterPoint>,
        clamp: Option<RasterRect>,
        local_tile_rect: PictureRect,
    ) -> bool {
        let a = self.appended(info, scratch, clamp, local_tile_rect);
        &&& after.vert_data@ == a.verts
        &&& after.dep_data@ == self.dep_data@ + encode_records(a.deps)
        &&& after.prims@ == self.prims@.push(a.prim)
        &&& after.local_valid_rect == self.local_valid_rect
        &&& after.last_updated_frame_id == self.last_updated_frame_id
    }

    /// `after` has grown from this descriptor by one primitive with `count`
    /// records: what the buffers held is still there, the records of the new
    /// primitive start where the stream ended and are the last of the
    /// stream, and its windows lie inside the grown vertex buffer.
    pub open spec fn grown_by_one(&self, after: &CachedSurfaceDescriptor, count: nat) -> bool {
        let n = self.prims@.len() as int;
        &&& after.prims@.len() == n + 1
        &&& after.prims@.subrange(0, n) == self.prims@
        &&& after.prims@[n].dep_count == count
        &&& after.prims@[n].dep_offset == self.dep_data@.len()
        &&& after.dep_data@.len() >= self.dep_data@.len()
        &&& after.dep_data@.subrange(0, self.dep_data@.len() as int) == self.dep_data@
        &&& after.vert_data@.len() >= self.vert_data@.len()
        &&& after.vert_data@.subrange(0, self.vert_data@.len() as int) == self.vert_data@
        &&& after.prims@[n].prim_corners.covers(after.vert_data@.len())
        &&& after.prims@[n].coverage_corners.covers(after.vert_data@.len())
        &&& after.deps_of(n) matches Some(d) && d.0.len() == count && after.prims@[n].dep_offset
            + d.1 == after.dep_data@.len() && clips_covered(d.0, after.vert_data@.len())
    }

    /// Adds a primitive: pushes its corners and those of its clips to the
    /// vertex buffer, clamped to `local_raster_rect` if `prim_clamp_to_tile`
    /// says so, encodes its dependencies, and appends its descriptor. Returns the position of the
    /// primitive in the list.
    pub fn push_prim(
        &mut self,
        info: &PrimitiveDependencyInfo,
        corners_cache: &CornersCache,
        prim_clamp_to_tile: bool,
        local_raster_rect: &RasterRect,
        local_tile_rect: PictureRect,
    ) -> (index: PrimitiveDependencyIndex)
        requires
            old(self).wf(),
            old(self).can_add(info),
        ensures
            final(self).wf(),
            index.0 == old(self).prims@.len(),
            old(self).grown_by_one(final(self), info.dep_total()),
            old(self).added(
                final(self),
                info,
                corners_cache.scratch(),
                if prim_clamp_to_tile {
                    Some(*local_raster_rect)
                } else {
                    None
                },
                local_tile_rect,
            ),
    {
        let ghost scratch = corners_cache.scratch();
        let ghost clamp = if prim_clamp_to_tile {
            Some(*local_raster_rect)
        } else {
            None
        };
        let ghost total = info.dep_total();
        let prim_corners = push_window(
            corners_cache,
            info.prim_scratch,
            prim_clamp_to_tile,
            local_raster_rect,
            &mut self.vert_data,
        );
        let ghost verts1 = self.vert_data@;
        let coverage_corners = push_window(
            corners_cache,
            info.cov_scratch,
            prim_clamp_to_tile,
            local_raster_rect,
            &mut self.vert_data,
        );
        let ghost verts2 = self.vert_data@;
        proof {
            let n0 = old(self).vert_data@.len() as int;
            assert(verts2.subrange(0, n0) =~= verts1.subrange(0, n0));
        }
        let index = PrimitiveDependencyIndex(self.prims.len() as u32);
        let dep_offset: u32 = self.dep_data.len() as u32;
        let mut dep_count: u32 = 0;
        let ghost mut deps: Seq<PrimitiveDependency> = Seq::empty();
        assert(encode_records(deps) =~= Seq::<u8>::empty());
        assert(self.dep_data@ =~= old(self).dep_data@ + encode_records(deps));

        let clips = info.clips.as_slice();
        let mut k: usize = 0;
        while k < clips.len()
            invariant
                k <= clips@.len(),
                clips@ == clip_items(info.clips),
                scratch == corners_cache.scratch(),
                clamp == (if prim_clamp_to_tile {
                    Some(*local_raster_rect)
                } else {
                    None
                }),
                total == info.dep_total(),
                self.prims@ == old(self).prims@,
                self.local_valid_rect == old(self).local_valid_rect,
                self.last_updated_frame_id == old(self).last_updated_frame_id,
                old(self).dep_data@.len() + MAX_RECORD_LEN * total <= u32::MAX,
                self.vert_data@ == clip_verts(scratch, clips@, clamp, verts2, k as nat),
                self.vert_data@.len() <= u32::MAX,
                verts2.len() <= self.vert_data@.len(),
                old(self).vert_data@.len() <= verts2.len(),
                self.vert_data@.subrange(0, old(self).vert_data@.len() as int) == old(
                    self,
                ).vert_data@,
                deps == clip_deps(scratch, clips@, clamp, verts2, k as nat),
                deps.len() == k,
                dep_count == k,
                self.dep_data@ == old(self).dep_data@ + encode_records(deps),
                encode_records(deps).len() <= MAX_RECORD_LEN * deps.len(),
                clips_covered(deps, self.vert_data@.len()),
            decreases clips@.len() - k,
        {
            let (uid, scratch_range) = clips[k];
            let ghost len_before = self.vert_data@.len();
            let vert_range = push_window(
                corners_cache,
                scratch_range,
                prim_clamp_to_tile,
                local_raster_rect,
                &mut self.vert_data,
            );
            let dep = PrimitiveDependency::Clip { prim_uid: uid, vert_range };
            proof {
                lemma_record_pushed(deps, dep, total, len_before, self.vert_data@.len());
                assert(self.vert_data@.subrange(0, old(self).vert_data@.len() as int)
                    =~= self.vert_data@.subrange(0, len_before as int).subrange(
                    0,
                    old(self).vert_data@.len() as int,
                ));
            }
            encode_dependency(&dep, &mut self.dep_data);
            dep_count = dep_count + 1;
            proof {
                deps = deps.push(dep);
                assert(self.dep_data@ =~= old(self).dep_data@ + encode_records(deps));
            }
            k += 1;
        }
        let ghost clip_part = deps;
        let ghost verts3 = self.vert_data@;

        let images = info.images.as_slice();
        let mut k: usize = 0;
        while k < images.len()
            invariant
                k <= images@.len(),
                images@ == image_items(info.images),
                total == info.dep_total(),
                clip_part.len() == clip_items(info.clips).len(),
                self.prims@ == old(self).prims@,
                self.local_valid_rect == old(self).local_valid_rect,
                self.last_updated_frame_id == old(self).last_updated_frame_id,
                old(self).dep_data@.len() + MAX_RECORD_LEN * total <= u32::MAX,
                self.vert_data@ == verts3,
                deps == clip_part + image_deps(images@.subrange(0, k as int)),
                dep_count == deps.len(),
                self.dep_data@ == old(self).dep_data@ + encode_records(deps),
                encode_records(deps).len() <= MAX_RECORD_LEN * deps.len(),
                clips_covered(deps, self.vert_data@.len()),
            decreases images@.len() - k,
        {
            let dep = PrimitiveDependency::Image { image: images[k] };
            proof {
                lemma_record_pushed(deps, dep, total, verts3.len(), verts3.len());
            }
            encode_dependency(&dep, &mut self.dep_data);
            dep_count = dep_count + 1;
            proof {
                deps = deps.push(dep);
                assert(deps =~= clip_part + image_deps(images@.subrange(0, k + 1)));
                assert(self.dep_data@ =~= old(self).dep_data@ + encode_records(deps));
            }
            k += 1;
        }
        assert(images@.subrange(0, images@.len() as int) =~= images@);
        let ghost image_part = deps;

        let bindings = info.opacity_bindings.as_slice();
        let mut k: usize = 0;
        while k < bindings.len()
            invariant
                k <= bindings@.len(),
                bindings@ == opacity_items(info.opacity_bindings),
                total == info.dep_total(),
                image_part.len() == clip_items(info.clips).len() + image_items(info.images).len(),
                self.prims@ == old(self).prims@,
                self.local_valid_rect == old(self).local_valid_rect,
                self.last_updated_frame_id == old(self).last_updated_frame_id,
                old(self).dep_data@.len() + MAX_RECORD_LEN * total <= u32::MAX,
                self.vert_data@ == verts3,
                deps == image_part + opacity_deps(bindings@.subrange(0, k as int)),
                dep_count == deps.len(),
                self.dep_data@ == old(self).dep_data@ + encode_records(deps),
                encode_records(deps).len() <= MAX_RECORD_LEN * deps.len(),
                clips_covered(deps, self.vert_data@.len()),
            decreases bindings@.len() - k,
        {
            let dep = PrimitiveDependency::OpacityBinding { binding: bindings[k] };
            proof {
                lemma_record_pushed(deps, dep, total, verts3.len(), verts3.len());
            }
            encode_dependency(&dep, &mut self.dep_data);
            dep_count = dep_count + 1;
            proof {
                deps = deps.push(dep);
                assert(deps =~= image_part + opacity_deps(bindings@.subrange(0, k + 1)));
                assert(self.dep_data@ =~= old(self).dep_data@ + encode_records(deps));
            }
            k += 1;
        }
        assert(bindings@.subrange(0, bindings@.len() as int) =~= bindings@);

        match info.color_binding {
            Some(binding) => {
                let dep = PrimitiveDependency::ColorBinding { binding };
                proof {
                    lemma_record_pushed(deps, dep, total, verts3.len(), verts3.len());
                }
                encode_dependency(&dep, &mut self.dep_data);
                dep_count = dep_count + 1;
                proof {
                    let before = deps;
                    deps = deps.push(dep);
                    assert(deps =~= before + color_deps(info.color_binding));
                    assert(self.dep_data@ =~= old(self).dep_data@ + encode_records(deps));
                }
            },
            None => {
                assert(deps =~= deps + color_deps(info.color_binding));
            },
        }
        let prim = PrimitiveDescriptor {
            prim_clip_box: info.prim_clip_box.clamp_to(&local_tile_rect),
            dep_offset,
            dep_count,
            prim_uid: info.prim_uid,
            prim_corners,
            coverage_corners,
        };
        self.prims.push(prim);
        proof {
            let a = old(self).appended(info, scratch, clamp, local_tile_rect);
            assert(deps =~= a.deps);
            assert(prim == a.prim);
            assert(self.prims@.subrange(0, old(self).prims@.len() as int) =~= old(self).prims@);
            lemma_push_wf(old(self), self, deps);
            assert(self.prim_wf(old(self).prims@.len() as int));
            assert(self.dep_data@.subrange(0, old(self).dep_data@.len() as int) =~= old(
                self,
            ).dep_data@);
            lemma_decode_encode_records(deps, Seq::<u8>::empty());
            assert(self.dep_data@.skip(old(self).dep_data@.len() as int) =~= encode_records(deps)
                + Seq::<u8>::empty());
        }
        index
    }
}

/// One more record behind a list of records: the bytes of the list grow by the
/// bytes of the record, stay within the room that was counted for them, and
/// the windows of the clips still lie inside the vertex buffer, which may have
/// grown.
proof fn lemma_record_pushed(
    deps: Seq<PrimitiveDependency>,
    dep: PrimitiveDependency,
    total: nat,
    len_before: nat,
    len_after: nat,
)
    requires
        deps.len() + 1 <= total,
        encode_records(deps).len() <= MAX_RECORD_LEN * deps.len(),
        clips_covered(deps, len_before),
        len_before <= len_after,
        dep matches PrimitiveDependency::Clip { vert_range, .. } ==> vert_range.covers(len_after),
    ensures
        encode_records(deps.push(dep)) == encode_records(deps) + encode_dep(dep),
        0 < encode_dep(dep).len() <= MAX_RECORD_LEN,
        encode_records(deps.push(dep)).len() <= MAX_RECORD_LEN * (deps.len() + 1),
        MAX_RECORD_LEN * (deps.len() + 1) <= MAX_RECORD_LEN * total,
        clips_covered(deps.push(dep), len_after),
{
    lemma_encode_records_push(deps, dep);
    lemma_encode_len(dep);
    assert(MAX_RECORD_LEN * (deps.len() + 1) <= MAX_RECORD_LEN * total) by (nonlinear_arith)
        requires
            deps.len() + 1 <= total,
    ;
    let after = deps.push(dep);
    assert forall|m: int| 0 <= m < after.len() implies (#[trigger] after[m] matches PrimitiveDependency::Clip {
        vert_range,
        ..
    } ==> vert_range.covers(len_after)) by {
        if m < deps.len() {
            assert(after[m] == deps[m]);
        }
    }
}

/// Pushes the points of a scratch window to a vertex buffer, clamped to
/// `local_raster_rect` if `clamp` says so.
fn push_window(
    corners_cache: &CornersCache,
    range: VertRange,
    clamp: bool,
    local_raster_rect: &RasterRect,
    dst: &mut Vec<i32>,
) -> (r: VertRange)
    requires
        old(dst)@.len() <= u32::MAX,
    ensures
        (final(dst)@, r) == pushed_verts(
            corners_cache.scratch(),
            range,
            if clamp {
                Some(*local_raster_rect)
            } else {
                None
            },
            old(dst)@,
        ),
        r.covers(final(dst)@.len()),
        old(dst)@.len() <= final(dst)@.len() <= u32::MAX,
        final(dst)@.subrange(0, old(dst)@.len() as int) == old(dst)@,
{
    if clamp {
        corners_cache.push_verts_clamped(range, local_raster_rect, dst)
    } else {
        corners_cache.push_verts(range, dst)
    }
}

/// A consistent descriptor stays consistent when a primitive is appended
/// whose records are appended to the stream and whose windows lie inside the
/// grown vertex buffer.
proof fn lemma_push_wf(
    before: &CachedSurfaceDescriptor,
    after: &CachedSurfaceDescriptor,
    deps: Seq<PrimitiveDependency>,
)
    requires
        before.wf(),
        after.prims@.len() == before.prims@.len() + 1,
        after.prims@.subrange(0, before.prims@.len() as int) == before.prims@,
        before.vert_data@.len() <= after.vert_data@.len() <= u32::MAX,
        after.dep_data@ == before.dep_data@ + encode_records(deps),
        after.dep_data@.len() <= u32::MAX,
        after.prims@.len() <= u32::MAX,
        after.prims@.last().dep_offset == before.dep_data@.len(),
        after.prims@.last().dep_count == deps.len(),
        after.prims@.last().prim_corners.covers(after.vert_data@.len()),
        after.prims@.last().coverage_corners.covers(after.vert_data@.len()),
        clips_covered(deps, after.vert_data@.len()),
    ensures
        after.wf(),
{
    let n = before.prims@.len() as int;
    let extra = encode_records(deps);
    assert forall|i: int| 0 <= i < after.prims@.len() implies #[trigger] after.prim_wf(i) by {
        if i < n {
            assert(after.prims@[i] == before.prims@.subrange(0, n)[i]);
            assert(before.prim_wf(i));
            let prim = before.prims@[i];
            let d = before.deps_of(i)->0;
            if i + 1 < n {
                assert(after.prims@[i + 1] == before.prims@.subrange(0, n)[i + 1]);
            }
            assert(after.dep_data@.skip(prim.dep_offset as int) =~= before.dep_data@.skip(
                prim.dep_offset as int,
            ) + extra);
            lemma_decode_records_prefix(
                before.dep_data@.skip(prim.dep_offset as int),
                extra,
                prim.dep_count as nat,
            );
            assert(after.deps_of(i) == Some(d));
            assert forall|k: int| 0 <= k < d.0.len() implies (
            #[trigger] d.0[k] matches PrimitiveDependency::Clip { vert_range, .. }
                ==> vert_range.covers(after.vert_data@.len())) by {
            }
        } else {
            assert(after.dep_data@.skip(before.dep_data@.len() as int) =~= extra + Seq::<
                u8,
            >::empty());
            lemma_decode_encode_records(deps, Seq::<u8>::empty());
        }
    }
    if n > 0 {
        assert(after.prims@[0] == before.prims@.subrange(0, n)[0]);
    }
}

/// What the compositor keeps between frames and the invalidation may spoil.
pub struct CompositeState {
    /// Cleared when the valid rectangle of a tile has changed: the dirty
    /// rectangles that the compositor remembers are then stale.
    pub dirty_rects_are_valid: bool,
}

/// What a tile reads, and does not change, when its validity is updated.
pub struct TileUpdateDirtyContext<'a> {
    /// The opacity bindings of the picture cache, keyed by
    /// [`crate::ids::PropertyBindingId::key`].
    pub opacity_bindings: &'a HashMap<u64, OpacityBindingInfo>,
    /// The colour bindings of the picture cache, keyed likewise.
    pub color_bindings: &'a HashMap<u64, ColorBindingInfo>,
    /// The rectangle of the whole picture cache.
    pub local_rect: PictureRect,
    /// True if the scale of the root transform of the picture cache has
    /// changed: every tile is then drawn again.
    pub invalidate_all: bool,
}

/// What a tile reads and changes when its validity is updated.
pub struct TileUpdateDirtyState<'a> {
    /// The image generations of the current frame.
    pub resource_cache: &'a ResourceCache,
    /// The state of the compositor.
    pub composite_state: CompositeState,
    /// Comparison results, keyed by [`pair_key`]. Shared by the tiles of one
    /// picture cache to spare the allocation; emptied for each tile.
    pub compare_cache: HashMap<u64, PrimitiveCompareResult>,
}

/// The verdict on the cached pixels of a tile.
pub struct Validity {
    /// Whether the cached pixels can be shown as they are.
    pub is_valid: bool,
    /// The part of the tile that has to be drawn again. Without meaning
    /// while the tile is valid.
    pub local_dirty_rect: PictureRect,
    /// Why the tile was invalidated in this frame, if it was.
    pub invalidation_reason: Option<InvalidationReason>,
}

impl Validity {
    /// The verdict after an invalidation: the tile is not valid; the dirty
    /// rectangle is the whole tile where no rectangle is given, else it
    /// grows by the rectangle; the reason is set unless one is set already.
    pub open spec fn invalidated(
        self,
        rect: Option<PictureRect>,
        reason: InvalidationReason,
        local_rect: PictureRect,
    ) -> Validity {
        Validity {
            is_valid: false,
            local_dirty_rect: match rect {
                Some(r) => self.local_dirty_rect.spec_union(r),
                None => local_rect,
            },
            invalidation_reason: match self.invalidation_reason {
                Some(r) => Some(r),
                None => Some(reason),
            },
        }
    }

    /// The verdict with the reason forgotten.
    pub open spec fn without_reason(self) -> Validity {
        Validity {
            is_valid: self.is_valid,
            local_dirty_rect: self.local_dirty_rect,
            invalidation_reason: None,
        }
    }

    /// The tile is valid exactly when nothing is dirty and no reason is set.
    pub open spec fn coherent(self) -> bool {
        self.is_valid <==> (self.local_dirty_rect.spec_is_empty() && self.invalidation_reason
            is None)
    }
}

/// A tile of a picture cache: the descriptors of the current and of the
/// previous frame, and the verdict on its cached pixels.
pub struct CachedSurface {
    pub current_descriptor: CachedSurfaceDescriptor,
    pub prev_descriptor: CachedSurfaceDescriptor,
    pub is_valid: bool,
    /// The part of the tile that the primitives of this frame cover.
    pub local_valid_rect: PictureBox2D,
    pub local_dirty_rect: PictureRect,
    /// The rectangle of the tile in picture space.
    pub local_rect: PictureRect,
    pub root: TileNode,
    pub background_color: Option<ColorF>,
    pub invalidation_reason: Option<InvalidationReason>,
    /// The sub-graphs that were drawn into the tile, each with its bounds and
    /// its surfaces.
    pub sub_graphs: Vec<(PictureRect, Vec<SurfaceIndex>)>,
}

impl CachedSurface {
    /// The verdict on the cached pixels.
    pub open spec fn validity(&self) -> Validity {
        Validity {
            is_valid: self.is_valid,
            local_dirty_rect: self.local_dirty_rect,
            invalidation_reason: self.invalidation_reason,
        }
    }

    /// The tile is consistent: its current descriptor is, its quadtree is,
    /// and the quadtree knows the primitives of the current descriptor by
    /// their positions.
    pub open spec fn wf(&self) -> bool {
        &&& self.current_descriptor.wf()
        &&& self.root.wf()
        &&& self.root.prims().len() == self.current_descriptor.prims@.len()
        &&& forall|j: int|
            0 <= j < self.root.prims().len() ==> (#[trigger] self.root.prims()[j]).index.0 == j
    }

    /// The comparer that the update of the validity uses.
    pub open spec fn comparer<'a>(
        &'a self,
        ctx: &'a TileUpdateDirtyContext<'a>,
        resource_cache: &'a ResourceCache,
    ) -> PrimitiveComparer<'a> {
        PrimitiveComparer::spec_new(
            &self.prev_descriptor,
            &self.current_descriptor,
            resource_cache,
            ctx.opacity_bindings,
            ctx.color_bindings,
        )
    }

    /// The positions of the primitives that reach into the tile and are not
    /// equal to their counterpart of the previous frame.
    pub open spec fn changed(
        &self,
        ctx: &TileUpdateDirtyContext,
        resource_cache: &ResourceCache,
    ) -> Set<int> {
        self.root.changed(
            &self.comparer(ctx, resource_cache),
            self.prev_descriptor.prims@,
            self.current_descriptor.prims@,
        )
    }

    /// The bounds, clamped to the tile, of the primitives that changed and of
    /// the primitives that are gone, joined.
    pub open spec fn content_dirty_rect(
        &self,
        ctx: &TileUpdateDirtyContext,
        resource_cache: &ResourceCache,
    ) -> PictureRect {
        self.root.dirty_after(
            &self.comparer(ctx, resource_cache),
            self.prev_descriptor.prims@,
            self.current_descriptor.prims@,
            Box2D::spec_zero(),
        )
    }

    /// The reason of the first primitive that changed, in the order of the
    /// scene; that the descriptor differs where none changed and one is
    /// gone.
    pub open spec fn content_reason(
        &self,
        ctx: &TileUpdateDirtyContext,
        resource_cache: &ResourceCache,
    ) -> Option<InvalidationReason> {
        first_reason(
            None,
            &self.comparer(ctx, resource_cache),
            self.prev_descriptor.prims@,
            self.current_descriptor.prims@,
            self.changed(ctx, resource_cache),
        )
    }

    /// The verdict after the update of the validity: the tile is invalidated
    /// with the dirty rectangle of its content if that is not empty, then as
    /// a whole if the scale has changed, then as a whole if the valid
    /// rectangle has changed.
    pub open spec fn updated_validity(
        &self,
        ctx: &TileUpdateDirtyContext,
        resource_cache: &ResourceCache,
    ) -> Validity {
        let dirty = self.content_dirty_rect(ctx, resource_cache);
        let v0 = self.validity();
        let v1 = match self.content_reason(ctx, resource_cache) {
            Some(reason) => if dirty.spec_is_empty() {
                v0
            } else {
                v0.invalidated(Some(dirty), reason, self.local_rect)
            },
            None => v0,
        };
        let v2 = if ctx.invalidate_all {
            v1.invalidated(None, InvalidationReason::ScaleChanged, self.local_rect)
        } else {
            v1
        };
        if self.valid_rect_changed() {
            v2.invalidated(None, InvalidationReason::ValidRectChanged, self.local_rect)
        } else {
            v2
        }
    }

    /// Whether the valid rectangle of the current descriptor differs from
    /// that of the previous one.
    pub open spec fn valid_rect_changed(&self) -> bool {
        self.current_descriptor.local_valid_rect != self.prev_descriptor.local_valid_rect
    }

    /// `after` is this tile but for the verdict on its pixels.
    pub open spec fn same_content(&self, after: &CachedSurface) -> bool {
        &&& after.current_descriptor == self.current_descriptor
        &&& after.prev_descriptor == self.prev_descriptor
        &&& after.local_valid_rect == self.local_valid_rect
        &&& after.local_rect == self.local_rect
        &&& after.root == self.root
        &&& after.background_color == self.background_color
        &&& after.sub_graphs == self.sub_graphs
    }

    /// `after` is this tile after `pre_update`.
    ///
    /// The valid rectangle is reset to the start value of a union, the
    /// reason and the sub-graphs are forgotten. A tile that is not visible
    /// is left at that: its descriptors stay, so that it is compared with
    /// what it last showed once it is visible again. A visible tile is
    /// invalidated as a whole if the background colour differs; its current
    /// descriptor becomes the previous one, and the current descriptor and
    /// the quadtree are cleared.
    pub open spec fn pre_updated(
        &self,
        after: &CachedSurface,
        background_color: Option<ColorF>,
        local_tile_rect: PictureRect,
        frame_id: FrameId,
        is_visible: bool,
    ) -> bool {
        &&& after.local_valid_rect == Box2D::spec_nothing()
        &&& after.sub_graphs@.len() == 0
        &&& after.local_rect == self.local_rect
        &&& if is_visible {
            &&& after.prev_descriptor == self.current_descriptor
            &&& after.current_descriptor.is_clear()
            &&& after.current_descriptor.last_updated_frame_id == frame_id
            &&& after.root.rect() == local_tile_rect
            &&& after.root.prims() == Seq::<PrimEntry>::empty()
            &&& after.background_color == background_color
            &&& after.validity() == if background_color != self.background_color {
                self.validity().without_reason().invalidated(
                    None,
                    InvalidationReason::BackgroundColor,
                    self.local_rect,
                )
            } else {
                self.validity().without_reason()
            }
            &&& after.wf()
        } else {
            &&& after.current_descriptor == self.current_descriptor
            &&& after.prev_descriptor == self.prev_descriptor
            &&& after.root == self.root
            &&& after.background_color == self.background_color
            &&& after.validity() == self.validity().without_reason()
        }
    }

    /// `after` is this tile after `add_prim_dependency`.
    ///
    /// The bounds of the primitive are joined to the valid rectangle as they
    /// are, and the quadtree lists the primitive by them; the descriptor
    /// keeps the bounds clamped to the tile.
    pub open spec fn prim_added(
        &self,
        after: &CachedSurface,
        info: &PrimitiveDependencyInfo,
        scratch: Seq<RasterPoint>,
        clamp: Option<RasterRect>,
        local_tile_rect: PictureRect,
    ) -> bool {
        &&& after.local_valid_rect == self.local_valid_rect.spec_union(info.prim_clip_box)
        &&& self.current_descriptor.added(
            &after.current_descriptor,
            info,
            scratch,
            clamp,
            local_tile_rect,
        )
        &&& after.root.rect() == self.root.rect()
        &&& after.root.prims() == self.root.prims().push(
            PrimEntry {
                index: PrimitiveDependencyIndex(self.current_descriptor.prims@.len() as u32),
                rect: info.prim_clip_box,
            },
        )
        &&& after.prev_descriptor == self.prev_descriptor
        &&& after.validity() == self.validity()
        &&& after.local_rect == self.local_rect
        &&& after.background_color == self.background_color
        &&& after.sub_graphs == self.sub_graphs
    }

    /// A tile without content that is not valid.
    pub fn new() -> (r: CachedSurface)
        ensures
            r.wf(),
            r.current_descriptor.is_clear(),
            r.prev_descriptor.is_clear(),
            r.prev_descriptor.wf(),
            !r.is_valid,
            r.local_valid_rect == Box2D::spec_zero(),
            r.local_dirty_rect == Box2D::spec_zero(),
            r.local_rect == Box2D::spec_zero(),
            r.root.rect() == Box2D::spec_zero(),
            r.background_color is None,
            r.invalidation_reason is None,
            r.sub_graphs@.len() == 0,
    {
        CachedSurface {
            current_descriptor: CachedSurfaceDescriptor::new(),
            prev_descriptor: CachedSurfaceDescriptor::new(),
            is_valid: false,
            local_valid_rect: Box2D::zero(),
            local_dirty_rect: Box2D::zero(),
            local_rect: Box2D::zero(),
            root: TileNode::new_leaf(),
            background_color: None,
            invalidation_reason: None,
            sub_graphs: Vec::new(),
        }
    }

    /// Prepares the tile for the dependencies of a new frame.
    pub fn pre_update(
        &mut self,
        background_color: Option<ColorF>,
        local_tile_rect: PictureRect,
        frame_id: FrameId,
        is_visible: bool,
    )
        ensures
            old(self).pre_updated(
                final(self),
                background_color,
                local_tile_rect,
                frame_id,
                is_visible,
            ),
            old(self).wf() ==> final(self).wf(),
    {
        self.local_valid_rect = Box2D::nothing();
        self.invalidation_reason = None;
        self.sub_graphs.clear();
        if !is_visible {
            return ;
        }
        if !same_color(&background_color, &self.background_color) {
            self.invalidate(None, InvalidationReason::BackgroundColor);
            self.background_color = background_color;
        }
        core::mem::swap(&mut self.current_descriptor, &mut self.prev_descriptor);
        self.current_descriptor.clear();
        self.root.clear(local_tile_rect);
        self.current_descriptor.last_updated_frame_id = frame_id;
    }

    /// Adds a primitive that touches the tile.
    pub fn add_prim_dependency(
        &mut self,
        info: &PrimitiveDependencyInfo,
        corners_cache: &CornersCache,
        prim_clamp_to_tile: bool,
        local_raster_rect: &RasterRect,
        local_tile_rect: PictureRect,
    )
        requires
            old(self).wf(),
            old(self).current_descriptor.can_add(info),
        ensures
            final(self).wf(),
            old(self).current_descriptor.grown_by_one(
                &final(self).current_descriptor,
                info.dep_total(),
            ),
            old(self).prim_added(
                final(self),
                info,
                corners_cache.scratch(),
                if prim_clamp_to_tile {
                    Some(*local_raster_rect)
                } else {
                    None
                },
                local_tile_rect,
            ),
    {
        self.local_valid_rect = self.local_valid_rect.union(&info.prim_clip_box);
        let prim_index = self.current_descriptor.push_prim(
            info,
            corners_cache,
            prim_clamp_to_tile,
            local_raster_rect,
            local_tile_rect,
        );
        self.root.add_prim(prim_index, &info.prim_clip_box);
    }

    /// Compares the content of the current descriptor with that of the
    /// previous one. Returns the dirty rectangle of the content and sets
    /// `invalidation_reason` to the reason of the first primitive that
    /// changed.
    fn update_dirty_rects(
        &self,
        ctx: &TileUpdateDirtyContext,
        state: &mut TileUpdateDirtyState,
        invalidation_reason: &mut Option<InvalidationReason>,
    ) -> (dirty_rect: PictureRect)
        requires
            self.wf(),
            old(state).compare_cache@ == Map::<u64, PrimitiveCompareResult>::empty(),
            *old(invalidation_reason) is None,
        ensures
            dirty_rect == self.content_dirty_rect(ctx, old(state).resource_cache),
            *final(invalidation_reason) == self.content_reason(ctx, old(state).resource_cache),
            final(state).resource_cache == old(state).resource_cache,
            final(state).composite_state == old(state).composite_state,
            self.cache_filled(ctx, old(state).resource_cache, final(state).compare_cache@),
    {
        let prim_comparer = PrimitiveComparer::new(
            &self.prev_descriptor,
            &self.current_descriptor,
            state.resource_cache,
            ctx.opacity_bindings,
            ctx.color_bindings,
        );
        let mut dirty_rect = Box2D::zero();
        self.root.update_dirty_rects(
            self.prev_descriptor.prims.as_slice(),
            self.current_descriptor.prims.as_slice(),
            &prim_comparer,
            &mut dirty_rect,
            &mut state.compare_cache,
            invalidation_reason,
        );
        dirty_rect
    }

    /// The table of comparison results holds the results of exactly the
    /// primitives that reach into the tile and have a counterpart in the
    /// previous frame.
    pub open spec fn cache_filled(
        &self,
        ctx: &TileUpdateDirtyContext,
        resource_cache: &ResourceCache,
        cache: Map<u64, PrimitiveCompareResult>,
    ) -> bool {
        &&& cache_agrees(
            cache,
            &self.comparer(ctx, resource_cache),
            self.prev_descriptor.prims@,
            self.current_descriptor.prims@,
        )
        &&& forall|i: int|
            self.root.compared(self.prev_descriptor.prims@, self.current_descriptor.prims@, i)
                ==> cache.contains_key(#[trigger] pair_key(i))
        &&& forall|k: u64| #[trigger]
            cache.contains_key(k) ==> exists|i: int|
                self.root.compared(self.prev_descriptor.prims@, self.current_descriptor.prims@, i)
                    && k == #[trigger] pair_key(i)
    }

    /// Decides whether the cached pixels of the tile are still valid, now
    /// that all primitives of the frame were added. To be called for tiles
    /// that are not visible too.
    pub fn update_content_validity(
        &mut self,
        ctx: &TileUpdateDirtyContext,
        state: &mut TileUpdateDirtyState,
    )
        requires
            old(self).wf(),
        ensures
            final(self).validity() == old(self).updated_validity(ctx, old(state).resource_cache),
            old(self).same_content(final(self)),
            final(state).resource_cache == old(state).resource_cache,
            final(state).composite_state.dirty_rects_are_valid == (!old(self).valid_rect_changed()
                && old(state).composite_state.dirty_rects_are_valid),
            old(self).cache_filled(ctx, old(state).resource_cache, final(state).compare_cache@),
            old(self).validity().coherent() ==> final(self).validity().coherent(),
            old(self).invalidation_reason is Some ==> final(self).invalidation_reason == old(
                self,
            ).invalidation_reason,
    {
        state.compare_cache.clear();
        let mut invalidation_reason: Option<InvalidationReason> = None;
        let dirty_rect = self.update_dirty_rects(ctx, state, &mut invalidation_reason);
        if !dirty_rect.is_empty() {
            match invalidation_reason {
                Some(reason) => {
                    self.invalidate(Some(dirty_rect), reason);
                },
                None => {},
            }
        }
        if ctx.invalidate_all {
            self.invalidate(None, InvalidationReason::ScaleChanged);
        }
        if self.current_descriptor.local_valid_rect != self.prev_descriptor.local_valid_rect {
            self.invalidate(None, InvalidationReason::ValidRectChanged);
            state.composite_state.dirty_rects_are_valid = false;
        }
    }

    /// Invalidates the tile: as a whole where no rectangle is given, else
    /// the rectangle is joined to what is dirty already. The first reason
    /// of a frame stays.
    pub fn invalidate(&mut self, invalidation_rect: Option<PictureRect>, reason: InvalidationReason)
        ensures
            final(self).validity() == old(self).validity().invalidated(
                invalidation_rect,
                reason,
                old(self).local_rect,
            ),
            old(self).same_content(final(self)),
            !final(self).is_valid,
            final(self).validity().coherent(),
            old(self).invalidation_reason is Some ==> final(self).invalidation_reason == old(
                self,
            ).invalidation_reason,
            old(self).invalidation_reason is None ==> final(self).invalidation_reason == Some(
                reason,
            ),
    {
        self.is_valid = false;
        match invalidation_rect {
            Some(rect) => {
                self.local_dirty_rect = self.local_dirty_rect.union(&rect);
            },
            None => {
                self.local_dirty_rect = self.local_rect;
            },
        }
        if self.invalidation_reason.is_none() {
            self.invalidation_reason = Some(reason);
        }
    }
}

/// Whether two background colours are the same.
fn same_color(a: &Option<ColorF>, b: &Option<ColorF>) -> (r: bool)
    ensures
        r == (*a == *b),
{
    match (a, b) {
        (Some(x), Some(y)) => x.r == y.r && x.g == y.g && x.b == y.b && x.a == y.a,
        (None, None) => true,
        _ => false,
    }
}

} // verus!
