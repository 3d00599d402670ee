//! What holds of the descriptors and of the comparison in every frame.

use vstd::prelude::*;
use crate::ids::FrameId;
use crate::ids::ColorF;
use crate::invalidation::{InvalidationReason, PrimitiveCompareResult};
use crate::invalidation::cached_surface::{
    pushed_verts, CachedSurface, CachedSurfaceDescriptor, PrimitiveDependencyInfo,
    PrimitiveDescriptor, TileUpdateDirtyContext, Validity,
};
use crate::invalidation::vert_buffer::{clamp_points, VertRange};
use crate::invalidation::compare::{
    binding_changed, corner_window, generation_of, Binding, PrimitiveComparer,
    PrimitiveDependency, ResourceCache,
};
use crate::invalidation::dep_stream::{decode_at, decode_dep, decode_records};
use crate::invalidation::quadtree::{
    first_in, lemma_first_in, lemma_first_in_least, lemma_first_in_none, lemma_union_of_agree,
    lemma_union_of_contains, lemma_union_of_insert, lemma_union_of_none, pair_result, removed,
    union_of,
};
use crate::units::{lemma_clamp_nonempty_iff_intersects, Box2D, PictureRect, RasterPoint, RasterRect};

verus! {

/// The number of records of the first `n` primitives.
pub open spec fn dep_count_sum(prims: Seq<PrimitiveDescriptor>, n: int) -> nat
    decreases n,
{
    if n <= 0 {
        0
    } else {
        dep_count_sum(prims, n - 1) + prims[n - 1].dep_count as nat
    }
}

/// `a` records, then `b` records behind them, are `a + b` records.
pub proof fn lemma_decode_records_concat(s: Seq<u8>, a: nat, b: nat)
    requires
        decode_records(s, a) matches Some(first) && decode_records(s.skip(first.1 as int), b)
            is Some,
    ensures
        ({
            let first = decode_records(s, a)->0;
            let second = decode_records(s.skip(first.1 as int), b)->0;
            decode_records(s, a + b) == Some((first.0 + second.0, first.1 + second.1))
        }),
    decreases a,
{
    let first = decode_records(s, a)->0;
    let second = decode_records(s.skip(first.1 as int), b)->0;
    if a == 0 {
        assert(s.skip(0) =~= s);
        assert(first.0 + second.0 =~= second.0);
    } else {
        let head = decode_dep(s)->0;
        let t = s.skip(head.1 as int);
        let rest = decode_records(t, (a - 1) as nat)->0;
        lemma_decode_records_len(t, (a - 1) as nat);
        assert(t.skip(rest.1 as int) =~= s.skip(first.1 as int));
        lemma_decode_records_concat(t, (a - 1) as nat, b);
        assert(seq![head.0] + (rest.0 + second.0) =~= first.0 + second.0);
    }
}

/// The records of a consistent descriptor are those of its primitives, one
/// primitive after the other: decoding as many records as the dependency
/// counts of the first `k` primitives add up to ends where the records of
/// the next primitive start.
pub proof fn lemma_stream_prefix(d: &CachedSurfaceDescriptor, k: int)
    requires
        d.wf(),
        0 <= k <= d.prims@.len(),
    ensures
        decode_records(d.dep_data@, dep_count_sum(d.prims@, k)) matches Some(r) && r.1 == (if k
            < d.prims@.len() {
            d.prims@[k].dep_offset as int
        } else {
            d.dep_data@.len() as int
        }),
    decreases k,
{
    if k > 0 {
        lemma_stream_prefix(d, k - 1);
        assert(d.prim_wf(k - 1));
        lemma_decode_records_concat(
            d.dep_data@,
            dep_count_sum(d.prims@, k - 1),
            d.prims@[k - 1].dep_count as nat,
        );
    }
}

/// In a consistent descriptor the dependency counts of the primitives add
/// up to the number of records of the stream: that many records decode, and
/// they take the whole stream.
pub proof fn law_dep_counts_match_stream(d: &CachedSurfaceDescriptor)
    requires
        d.wf(),
    ensures
        decode_records(d.dep_data@, dep_count_sum(d.prims@, d.prims@.len() as int)) matches Some(
            r,
        ) && r.1 == d.dep_data@.len(),
{
    lemma_stream_prefix(d, d.prims@.len() as int);
}

/// In a consistent descriptor the records of a later primitive do not start
/// before those of an earlier one.
pub proof fn law_dep_offsets_monotone(d: &CachedSurfaceDescriptor, i: int, j: int)
    requires
        d.wf(),
        0 <= i <= j < d.prims@.len(),
    ensures
        d.prims@[i].dep_offset <= d.prims@[j].dep_offset,
        d.prims@[j].dep_offset <= d.dep_data@.len(),
    decreases j - i,
{
    assert(d.prim_wf(j));
    if i < j {
        assert(d.prim_wf(i));
        law_dep_offsets_monotone(d, i + 1, j);
    }
}

/// In a consistent descriptor every window, of a primitive or of the record
/// of a clip, has 0, 4 or 8 coordinates and lies inside the vertex buffer.
pub proof fn law_vert_ranges_covered(d: &CachedSurfaceDescriptor, i: int)
    requires
        d.wf(),
        0 <= i < d.prims@.len(),
    ensures
        d.prims@[i].prim_corners.covers(d.vert_data@.len()),
        d.prims@[i].coverage_corners.covers(d.vert_data@.len()),
        d.deps_of(i) matches Some(r) && forall|k: int|
            0 <= k < r.0.len() ==> (#[trigger] r.0[k] matches PrimitiveDependency::Clip {
                vert_range,
                ..
            } ==> vert_range.covers(d.vert_data@.len())),
{
    assert(d.prim_wf(i));
}

/// An invalidation leaves the tile invalid with a reason, and keeps a reason
/// that was set before.
pub proof fn law_first_reason_stays(
    v: Validity,
    rect: Option<PictureRect>,
    reason: InvalidationReason,
    local_rect: PictureRect,
)
    ensures
        v.invalidated(rect, reason, local_rect).coherent(),
        !v.invalidated(rect, reason, local_rect).is_valid,
        v.invalidation_reason is Some ==> v.invalidated(
            rect,
            reason,
            local_rect,
        ).invalidation_reason == v.invalidation_reason,
        v.invalidation_reason is None ==> v.invalidated(
            rect,
            reason,
            local_rect,
        ).invalidation_reason == Some(reason),
{
}

/// After the update of the validity a tile is valid exactly when nothing is
/// dirty and no reason is set, if before the frame it was valid exactly when
/// nothing was dirty.
///
/// `before` is the tile before `pre_update`, `prepared` the tile after it,
/// and `built` the tile after its primitives were added, which does not
/// touch the verdict.
pub proof fn law_validity_coherent(
    before: &CachedSurface,
    prepared: &CachedSurface,
    built: &CachedSurface,
    background_color: Option<ColorF>,
    local_tile_rect: PictureRect,
    frame_id: FrameId,
    is_visible: bool,
    ctx: &TileUpdateDirtyContext,
    resource_cache: &ResourceCache,
)
    requires
        before.is_valid <==> before.local_dirty_rect.spec_is_empty(),
        before.pre_updated(prepared, background_color, local_tile_rect, frame_id, is_visible),
        built.validity() == prepared.validity(),
    ensures
        built.updated_validity(ctx, resource_cache).coherent(),
{
}

/// A tile that was not visible for a frame is compared, once it is visible
/// again, with the descriptor that it had when it was last visible.
pub proof fn law_invisible_keeps_baseline(
    shown: &CachedSurface,
    hidden: &CachedSurface,
    shown_again: &CachedSurface,
    hidden_color: Option<ColorF>,
    hidden_rect: PictureRect,
    hidden_frame: FrameId,
    color: Option<ColorF>,
    rect: PictureRect,
    frame: FrameId,
)
    requires
        shown.pre_updated(hidden, hidden_color, hidden_rect, hidden_frame, false),
        hidden.pre_updated(shown_again, color, rect, frame, true),
    ensures
        hidden.current_descriptor == shown.current_descriptor,
        hidden.prev_descriptor == shown.prev_descriptor,
        shown_again.prev_descriptor == shown.current_descriptor,
{
}

/// A descriptor is a function of what was added to it: two descriptors with
/// the same buffers to which the same primitive is added under the same
/// conditions have the same buffers afterwards.
pub proof fn law_same_inputs_same_descriptor(
    a: &CachedSurfaceDescriptor,
    a_after: &CachedSurfaceDescriptor,
    b: &CachedSurfaceDescriptor,
    b_after: &CachedSurfaceDescriptor,
    info: &PrimitiveDependencyInfo,
    scratch: Seq<RasterPoint>,
    clamp: Option<RasterRect>,
    local_tile_rect: PictureRect,
)
    requires
        a.prims@ == b.prims@,
        a.dep_data@ == b.dep_data@,
        a.vert_data@ == b.vert_data@,
        a.added(a_after, info, scratch, clamp, local_tile_rect),
        b.added(b_after, info, scratch, clamp, local_tile_rect),
    ensures
        a_after.prims@ == b_after.prims@,
        a_after.dep_data@ == b_after.dep_data@,
        a_after.vert_data@ == b_after.vert_data@,
{
}

impl<'a> PrimitiveComparer<'a> {
    /// Nothing outside the descriptors speaks against a dependency of the
    /// current frame: the resource cache reports the recorded generation of
    /// an image, and an animated property does not count as changed.
    pub open spec fn settled(&self, dep: PrimitiveDependency) -> bool {
        match dep {
            PrimitiveDependency::Image { image } => generation_of(self.generations(), image.key)
                == image.generation,
            PrimitiveDependency::OpacityBinding { binding: Binding::Binding(id) } => {
                !binding_changed(self.opacity(), id)
            },
            PrimitiveDependency::ColorBinding { binding: Binding::Binding(id) } => {
                !binding_changed(self.color(), id)
            },
            _ => true,
        }
    }

    /// Of two lists of records that decode, the first pair that is not equal
    /// decides the comparison; where every pair is equal, so are the lists.
    /// `j` is the number of pairs at the start that are equal.
    pub proof fn law_first_difference_decides(&self, prev_at: int, curr_at: int, n: nat, j: int)
        requires
            0 <= prev_at <= self.prev().dep_data@.len(),
            0 <= curr_at <= self.curr().dep_data@.len(),
            0 <= j <= n,
            decode_records(self.prev().dep_data@.skip(prev_at), n) matches Some(p)
                && decode_records(self.curr().dep_data@.skip(curr_at), n) matches Some(c)
                && forall|k: int|
                0 <= k < j ==> self.spec_compare_dep(#[trigger] p.0[k], c.0[k])
                    == PrimitiveCompareResult::Equal,
        ensures
            j == n ==> self.spec_compare_deps(prev_at, curr_at, n) == PrimitiveCompareResult::Equal,
            decode_records(self.prev().dep_data@.skip(prev_at), n) matches Some(p)
                && decode_records(self.curr().dep_data@.skip(curr_at), n) matches Some(c) && (j < n
                && self.spec_compare_dep(p.0[j], c.0[j]) != PrimitiveCompareResult::Equal
                ==> self.spec_compare_deps(prev_at, curr_at, n) == self.spec_compare_dep(
                p.0[j],
                c.0[j],
            )),
        decreases n,
    {
        if n > 0 {
            let ps = self.prev().dep_data@.skip(prev_at);
            let cs = self.curr().dep_data@.skip(curr_at);
            let p = decode_records(ps, n)->0;
            let c = decode_records(cs, n)->0;
            let ph = decode_dep(ps)->0;
            let ch = decode_dep(cs)->0;
            assert(ps.len() >= ph.1);
            assert(cs.len() >= ch.1);
            assert(ps.skip(ph.1 as int) =~= self.prev().dep_data@.skip(prev_at + ph.1));
            assert(cs.skip(ch.1 as int) =~= self.curr().dep_data@.skip(curr_at + ch.1));
            let pt = decode_records(ps.skip(ph.1 as int), (n - 1) as nat)->0;
            let ct = decode_records(cs.skip(ch.1 as int), (n - 1) as nat)->0;
            lemma_decode_records_len(ps.skip(ph.1 as int), (n - 1) as nat);
            lemma_decode_records_len(cs.skip(ch.1 as int), (n - 1) as nat);
            assert(p.0 == seq![ph.0] + pt.0);
            assert(c.0 == seq![ch.0] + ct.0);
            assert(p.0[0] == ph.0 && c.0[0] == ch.0);
            if j > 0 {
                assert(self.spec_compare_dep(p.0[0], c.0[0]) == PrimitiveCompareResult::Equal);
                assert forall|k: int| 0 <= k < j - 1 implies self.spec_compare_dep(
                    #[trigger] pt.0[k],
                    ct.0[k],
                ) == PrimitiveCompareResult::Equal by {
                    assert(p.0[k + 1] == pt.0[k]);
                    assert(c.0[k + 1] == ct.0[k]);
                }
                self.law_first_difference_decides(
                    prev_at + ph.1,
                    curr_at + ch.1,
                    (n - 1) as nat,
                    j - 1,
                );
                if j < n {
                    assert(p.0[j] == pt.0[j - 1]);
                    assert(c.0[j] == ct.0[j - 1]);
                }
            }
        }
    }

    /// A dependency that is settled is equal to itself, if the windows of the
    /// two vertex buffers hold the same coordinates.
    pub proof fn lemma_settled_dep_is_equal(&self, dep: PrimitiveDependency)
        requires
            self.prev().vert_data@ == self.curr().vert_data@,
            self.settled(dep),
        ensures
            self.spec_compare_dep(dep, dep) == PrimitiveCompareResult::Equal,
    {
    }

    /// A primitive whose descriptor, corners and records are the same in
    /// both frames is equal, if its corners are there and its records are
    /// settled.
    pub proof fn law_unchanged_primitive_is_equal(&self, prim: PrimitiveDescriptor)
        requires
            self.prev().vert_data@ == self.curr().vert_data@,
            self.prev().dep_data@ == self.curr().dep_data@,
            corner_window(prim.prim_corners, self.curr().vert_data@) is Some,
            corner_window(prim.coverage_corners, self.curr().vert_data@) is Some,
            prim.dep_offset <= self.curr().dep_data@.len(),
            decode_records(
                self.curr().dep_data@.skip(prim.dep_offset as int),
                prim.dep_count as nat,
            ) matches Some(r) && forall|k: int|
                0 <= k < r.0.len() ==> self.settled(#[trigger] r.0[k]),
        ensures
            self.spec_compare_prim(prim, prim) == PrimitiveCompareResult::Equal,
    {
        let r = decode_records(
            self.curr().dep_data@.skip(prim.dep_offset as int),
            prim.dep_count as nat,
        )->0;
        lemma_decode_records_len(
            self.curr().dep_data@.skip(prim.dep_offset as int),
            prim.dep_count as nat,
        );
        assert forall|k: int| 0 <= k < prim.dep_count implies self.spec_compare_dep(
            #[trigger] r.0[k],
            r.0[k],
        ) == PrimitiveCompareResult::Equal by {
            self.lemma_settled_dep_is_equal(r.0[k]);
        }
        self.law_first_difference_decides(
            prim.dep_offset as int,
            prim.dep_offset as int,
            prim.dep_count as nat,
            prim.dep_count as int,
        );
    }

    /// Two primitives of different templates differ as descriptors, whichever
    /// of them is the previous one: so do both positions where two such
    /// primitives have changed places.
    pub proof fn law_swapped_primitives_differ(&self, a: PrimitiveDescriptor, b: PrimitiveDescriptor)
        requires
            a.prim_uid != b.prim_uid,
        ensures
            self.spec_compare_prim(a, b) == PrimitiveCompareResult::Descriptor,
            self.spec_compare_prim(b, a) == PrimitiveCompareResult::Descriptor,
    {
    }

    /// The comparison does not read the bounds of a primitive: a primitive
    /// that only moved in picture space, as under a scroll, compares as
    /// before.
    pub proof fn law_bounds_are_not_compared(
        &self,
        prev: PrimitiveDescriptor,
        curr: PrimitiveDescriptor,
        prev_box: Box2D,
        curr_box: Box2D,
    )
        ensures
            self.spec_compare_prim(
                PrimitiveDescriptor { prim_clip_box: prev_box, ..prev },
                PrimitiveDescriptor { prim_clip_box: curr_box, ..curr },
            ) == self.spec_compare_prim(prev, curr),
    {
    }

    /// A primitive whose records are the same up to an image with the same
    /// key, where either the recorded generations differ or the resource
    /// cache reports another generation than the one recorded, differs by
    /// that image.
    pub proof fn law_stale_image_is_found(
        &self,
        prev: PrimitiveDescriptor,
        curr: PrimitiveDescriptor,
        j: int,
    )
        requires
            prev.prim_uid == curr.prim_uid,
            corner_window(prev.prim_corners, self.prev().vert_data@) is Some,
            corner_window(prev.prim_corners, self.prev().vert_data@) == corner_window(
                curr.prim_corners,
                self.curr().vert_data@,
            ),
            corner_window(prev.coverage_corners, self.prev().vert_data@) is Some,
            corner_window(prev.coverage_corners, self.prev().vert_data@) == corner_window(
                curr.coverage_corners,
                self.curr().vert_data@,
            ),
            prev.dep_count == curr.dep_count,
            prev.dep_offset <= self.prev().dep_data@.len(),
            curr.dep_offset <= self.curr().dep_data@.len(),
            0 <= j < curr.dep_count,
            decode_records(
                self.prev().dep_data@.skip(prev.dep_offset as int),
                prev.dep_count as nat,
            ) matches Some(p) && decode_records(
                self.curr().dep_data@.skip(curr.dep_offset as int),
                curr.dep_count as nat,
            ) matches Some(c) && {
                &&& forall|k: int|
                    0 <= k < j ==> self.spec_compare_dep(#[trigger] p.0[k], c.0[k])
                        == PrimitiveCompareResult::Equal
                &&& p.0[j] matches PrimitiveDependency::Image { image: prev_image }
                &&& c.0[j] matches PrimitiveDependency::Image { image: curr_image }
                &&& prev_image.key == curr_image.key
                &&& prev_image.generation != curr_image.generation || generation_of(
                    self.generations(),
                    curr_image.key,
                ) != curr_image.generation
            },
        ensures
            self.spec_compare_prim(prev, curr) == PrimitiveCompareResult::Image,
    {
        lemma_decode_records_len(
            self.prev().dep_data@.skip(prev.dep_offset as int),
            prev.dep_count as nat,
        );
        lemma_decode_records_len(
            self.curr().dep_data@.skip(curr.dep_offset as int),
            curr.dep_count as nat,
        );
        self.law_first_difference_decides(
            prev.dep_offset as int,
            curr.dep_offset as int,
            curr.dep_count as nat,
            j,
        );
    }
}

/// `n` records that decode are `n` dependencies.
pub proof fn lemma_decode_records_len(s: Seq<u8>, n: nat)
    requires
        decode_records(s, n) is Some,
    ensures
        decode_records(s, n) matches Some(r) && r.0.len() == n && r.1 <= s.len(),
    decreases n,
{
    if n > 0 {
        let h = decode_dep(s)->0;
        lemma_decode_records_len(s.skip(h.1 as int), (n - 1) as nat);
    }
}

/// The bounds of a primitive that changed lie inside the dirty rectangle of
/// the content.
pub proof fn law_changed_is_dirty(
    tile: &CachedSurface,
    ctx: &TileUpdateDirtyContext,
    resource_cache: &ResourceCache,
    i: int,
)
    requires
        tile.changed(ctx, resource_cache).contains(i),
    ensures
        0 <= i < tile.current_descriptor.prims@.len(),
        tile.content_dirty_rect(ctx, resource_cache).spec_contains_box(
            tile.current_descriptor.prims@[i].prim_clip_box,
        ),
        tile.content_reason(ctx, resource_cache) is Some,
{
    let prims = tile.current_descriptor.prims@;
    let before = tile.prev_descriptor.prims@;
    let changed = tile.changed(ctx, resource_cache);
    lemma_union_of_contains(prims, changed, prims.len() as int, Box2D::spec_zero());
    let listed_dirty = union_of(prims, changed, prims.len() as int, Box2D::spec_zero());
    lemma_union_of_contains(before, removed(before, prims), before.len() as int, listed_dirty);
    lemma_first_in(changed, prims.len() as int);
}

/// The bounds that a primitive had which is gone, because the current list
/// is shorter than the previous one, lie inside the dirty rectangle of the
/// content, and a reason is set.
pub proof fn law_removed_is_dirty(
    tile: &CachedSurface,
    ctx: &TileUpdateDirtyContext,
    resource_cache: &ResourceCache,
    i: int,
)
    requires
        tile.current_descriptor.prims@.len() <= i < tile.prev_descriptor.prims@.len(),
    ensures
        tile.content_dirty_rect(ctx, resource_cache).spec_contains_box(
            tile.prev_descriptor.prims@[i].prim_clip_box,
        ),
        tile.content_reason(ctx, resource_cache) is Some,
{
    let prims = tile.current_descriptor.prims@;
    let before = tile.prev_descriptor.prims@;
    let changed = tile.changed(ctx, resource_cache);
    let listed_dirty = union_of(prims, changed, prims.len() as int, Box2D::spec_zero());
    lemma_union_of_contains(before, removed(before, prims), before.len() as int, listed_dirty);
    lemma_first_in(changed, prims.len() as int);
}

/// Where the current descriptor of a tile has the content of the previous
/// one, every primitive compares equal, none is gone, nothing is dirty, and
/// the tile stays as valid as it was. This needs that the corners of each
/// primitive are there, that the records are settled, and that the scale has
/// not changed.
pub proof fn law_same_scene_stays_valid(
    tile: &CachedSurface,
    ctx: &TileUpdateDirtyContext,
    resource_cache: &ResourceCache,
)
    requires
        tile.wf(),
        tile.prev_descriptor.prims@ == tile.current_descriptor.prims@,
        tile.prev_descriptor.dep_data@ == tile.current_descriptor.dep_data@,
        tile.prev_descriptor.vert_data@ == tile.current_descriptor.vert_data@,
        tile.prev_descriptor.local_valid_rect == tile.current_descriptor.local_valid_rect,
        !ctx.invalidate_all,
        forall|i: int|
            0 <= i < tile.current_descriptor.prims@.len() ==> {
                let prim = #[trigger] tile.current_descriptor.prims@[i];
                &&& prim.prim_corners.spec_is_valid()
                &&& prim.coverage_corners.spec_is_valid()
                &&& tile.current_descriptor.deps_of(i) matches Some(r) && forall|k: int|
                    0 <= k < r.0.len() ==> tile.comparer(ctx, resource_cache).settled(
                        #[trigger] r.0[k],
                    )
            },
    ensures
        forall|i: int|
            0 <= i < tile.current_descriptor.prims@.len() ==> #[trigger] pair_result(
                &tile.comparer(ctx, resource_cache),
                tile.prev_descriptor.prims@,
                tile.current_descriptor.prims@,
                i,
            ) == PrimitiveCompareResult::Equal,
        tile.content_dirty_rect(ctx, resource_cache) == Box2D::spec_zero(),
        tile.updated_validity(ctx, resource_cache) == tile.validity(),
{
    let comparer = tile.comparer(ctx, resource_cache);
    PrimitiveComparer::lemma_spec_new(
        &tile.prev_descriptor,
        &tile.current_descriptor,
        resource_cache,
        ctx.opacity_bindings,
        ctx.color_bindings,
    );
    let prims = tile.current_descriptor.prims@;
    assert forall|i: int| 0 <= i < prims.len() implies #[trigger] pair_result(
        &comparer,
        tile.prev_descriptor.prims@,
        prims,
        i,
    ) == PrimitiveCompareResult::Equal by {
        let prim = prims[i];
        assert(tile.current_descriptor.prim_wf(i));
        comparer.law_unchanged_primitive_is_equal(prim);
    }
    let changed = tile.changed(ctx, resource_cache);
    lemma_union_of_none(prims, changed, prims.len() as int, Box2D::spec_zero());
    lemma_union_of_none(
        tile.prev_descriptor.prims@,
        removed(tile.prev_descriptor.prims@, prims),
        prims.len() as int,
        Box2D::spec_zero(),
    );
    lemma_first_in_none(changed, prims.len() as int);
}

/// Where the bounds of a primitive were clamped to the rectangle of the
/// quadtree, the quadtree lists the primitive exactly when the bounds that
/// the descriptor keeps are not empty: a primitive that is not compared has
/// nothing to show in the tile.
pub proof fn law_listed_iff_bounds_not_empty(tile: &CachedSurface, i: int)
    requires
        tile.wf(),
        0 <= i < tile.current_descriptor.prims@.len(),
        tile.current_descriptor.prims@[i].prim_clip_box == tile.root.prims()[i].rect.spec_clamp_to(
            tile.root.rect(),
        ),
    ensures
        tile.root.indexed(i) <==> !tile.current_descriptor.prims@[i].prim_clip_box.spec_is_empty(),
{
    let entry = tile.root.prims()[i];
    lemma_clamp_nonempty_iff_intersects(entry.rect, tile.root.rect());
    assert(entry.index.0 == i);
    if tile.root.indexed(i) {
        let j = choose|j: int|
            0 <= j < tile.root.prims().len() && (#[trigger] tile.root.prims()[j]).index.0 == i
                && tile.root.prims()[j].rect.spec_intersects(tile.root.rect());
        assert(tile.root.prims()[j].index.0 == j);
    }
}

/// The reason of the content is that of the first primitive, in the order
/// of the scene, that changed: the image where that primitive differs by an
/// image.
pub proof fn law_first_changed_gives_the_reason(
    tile: &CachedSurface,
    ctx: &TileUpdateDirtyContext,
    resource_cache: &ResourceCache,
    i: int,
)
    requires
        tile.changed(ctx, resource_cache).contains(i),
        forall|j: int| 0 <= j < i ==> !tile.changed(ctx, resource_cache).contains(j),
    ensures
        tile.content_reason(ctx, resource_cache) == pair_result(
            &tile.comparer(ctx, resource_cache),
            tile.prev_descriptor.prims@,
            tile.current_descriptor.prims@,
            i,
        ).spec_reason(),
        tile.content_reason(ctx, resource_cache) is Some,
{
    lemma_first_in_least(
        tile.changed(ctx, resource_cache),
        tile.current_descriptor.prims@.len() as int,
        i,
    );
}

/// Where one primitive changed and nothing else did (no other primitive, no
/// primitive gone, the valid rectangle and the scale as they were), the tile
/// is invalid, the reason is that of the primitive, and the bounds of the
/// primitive are joined to what was dirty: a primitive that moved leaves its
/// new bounds as the dirty rectangle of a tile that was drawn.
pub proof fn law_one_changed_primitive(
    tile: &CachedSurface,
    ctx: &TileUpdateDirtyContext,
    resource_cache: &ResourceCache,
    i: int,
)
    requires
        tile.changed(ctx, resource_cache).contains(i),
        forall|j: int| tile.changed(ctx, resource_cache).contains(j) ==> j == i,
        tile.prev_descriptor.prims@.len() <= tile.current_descriptor.prims@.len(),
        !tile.current_descriptor.prims@[i].prim_clip_box.spec_is_empty(),
        !ctx.invalidate_all,
        !tile.valid_rect_changed(),
    ensures
        tile.content_dirty_rect(ctx, resource_cache)
            == tile.current_descriptor.prims@[i].prim_clip_box,
        tile.updated_validity(ctx, resource_cache) == tile.validity().invalidated(
            Some(tile.current_descriptor.prims@[i].prim_clip_box),
            pair_result(
                &tile.comparer(ctx, resource_cache),
                tile.prev_descriptor.prims@,
                tile.current_descriptor.prims@,
                i,
            ).spec_reason()->0,
            tile.local_rect,
        ),
{
    let prims = tile.current_descriptor.prims@;
    let before = tile.prev_descriptor.prims@;
    let changed = tile.changed(ctx, resource_cache);
    let n = prims.len() as int;
    let none = Set::<int>::empty();
    lemma_union_of_none(prims, none, n, Box2D::spec_zero());
    lemma_union_of_insert(prims, none, n, Box2D::spec_zero(), i);
    lemma_union_of_agree(prims, none.insert(i), changed, n, Box2D::spec_zero());
    lemma_union_of_none(
        before,
        removed(before, prims),
        before.len() as int,
        union_of(prims, changed, n, Box2D::spec_zero()),
    );
    law_first_changed_gives_the_reason(tile, ctx, resource_cache, i);
}

/// Corners that differ only outside the tile leave the same coordinates
/// behind where they are pushed clamped to the tile: this holds of the
/// corners of a primitive, of its coverage and of its clips, so that a clip
/// that changes only outside the tile changes nothing that is compared.
pub proof fn law_change_outside_the_tile_is_not_kept(
    scratch_before: Seq<RasterPoint>,
    scratch_after: Seq<RasterPoint>,
    range: VertRange,
    tile_rect: RasterRect,
    verts: Seq<i32>,
)
    requires
        scratch_before.len() == scratch_after.len(),
        clamp_points(range.window(scratch_before), tile_rect) == clamp_points(
            range.window(scratch_after),
            tile_rect,
        ),
    ensures
        pushed_verts(scratch_before, range, Some(tile_rect), verts) == pushed_verts(
            scratch_after,
            range,
            Some(tile_rect),
            verts,
        ),
{
}

} // verus!
