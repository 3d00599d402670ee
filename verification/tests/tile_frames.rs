//! Whole frames on one tile: what is dirty after a change, and why.

use std::collections::HashMap;
use tile_invalidation::ids::{
    ColorF, ColorU, FrameId, IdNamespace, ImageGeneration, ImageKey, ItemUid, PropertyBindingId,
    SpatialNodeIndex,
};
use tile_invalidation::invalidation::cached_surface::{
    CachedSurface, CompositeState, PrimitiveDependencyInfo, TileUpdateDirtyContext,
    TileUpdateDirtyState,
};
use tile_invalidation::invalidation::compare::{
    Binding, BindingInfo, ColorBindingInfo, ImageDependency, OpacityBindingInfo,
    PrimitiveComparisonKey, ResourceCache,
};
use tile_invalidation::invalidation::cached_surface::PrimitiveDependencyIndex;
use tile_invalidation::invalidation::dep_stream::decode_dependency;
use tile_invalidation::invalidation::vert_buffer::{
    CoordinateSpaceMapping, CornersCache, ProjectedCorners,
};
use tile_invalidation::invalidation::{InvalidationReason, PrimitiveCompareResult};
use tile_invalidation::units::{Box2D, Point2D};

/// One primitive of a test scene. Picture space and raster space coincide
/// but for the unit: a raster coordinate is four times the picture one.
#[derive(Clone)]
struct Prim {
    uid: u64,
    rect: Box2D,
    coverage: Box2D,
    images: Vec<ImageDependency>,
    opacities: Vec<Binding<u32>>,
    color: Option<Binding<ColorU>>,
    clips: Vec<(u64, Box2D)>,
}

fn pr(x: i32, y: i32, w: i32, h: i32) -> Box2D {
    Box2D::from_coords(x, y, x + w, y + h)
}

fn rect_prim(uid: u64, rect: Box2D) -> Prim {
    Prim {
        uid,
        rect,
        coverage: rect,
        images: Vec::new(),
        opacities: Vec::new(),
        color: None,
        clips: Vec::new(),
    }
}

fn quarter(p: Point2D) -> Point2D {
    Point2D::new(p.x * 4, p.y * 4)
}

fn corners(rect: &Box2D) -> ProjectedCorners {
    ProjectedCorners::axis_aligned(quarter(rect.min), quarter(rect.max))
}

fn tile_rect() -> Box2D {
    pr(0, 0, 1000, 1000)
}

struct Scene {
    tile: CachedSurface,
    cache: CornersCache,
    frame: u64,
    resources: ResourceCache,
    opacity: HashMap<u64, OpacityBindingInfo>,
    colors: HashMap<u64, ColorBindingInfo>,
    composite: CompositeState,
    compare_cache: HashMap<u64, PrimitiveCompareResult>,
    clamp: bool,
}

impl Scene {
    fn new() -> Scene {
        let mut tile = CachedSurface::new();
        tile.local_rect = tile_rect();
        Scene {
            tile,
            cache: CornersCache::new(),
            frame: 0,
            resources: ResourceCache::new(),
            opacity: HashMap::new(),
            colors: HashMap::new(),
            composite: CompositeState { dirty_rects_are_valid: true },
            compare_cache: HashMap::new(),
            clamp: true,
        }
    }

    /// Builds the dependencies of one frame.
    fn build(&mut self, prims: &[Prim], background: Option<ColorF>, is_visible: bool) {
        self.frame += 1;
        self.cache.pre_update();
        self.tile.pre_update(background, tile_rect(), FrameId(self.frame), is_visible);
        if !is_visible {
            return;
        }
        let node = SpatialNodeIndex(7);
        let raster_tile = Box2D::new(quarter(tile_rect().min), quarter(tile_rect().max));
        for prim in prims {
            self.cache.clear_scratch();
            if self.cache.cached_mapping(node).is_none() {
                self.cache.set_relative_transform(node, CoordinateSpaceMapping::Local);
            }
            let mut info = PrimitiveDependencyInfo::new(ItemUid::new(prim.uid), prim.coverage);
            info.prim_scratch = self.cache.compute_to_scratch(node, &corners(&prim.rect));
            info.cov_scratch = self.cache.compute_to_scratch(node, &corners(&prim.coverage));
            for (uid, rect) in &prim.clips {
                let range = self.cache.compute_to_scratch(node, &corners(rect));
                info.clips.push(ItemUid::new(*uid), range);
            }
            for image in &prim.images {
                info.images.push(*image);
            }
            for opacity in &prim.opacities {
                info.opacity_bindings.push(*opacity);
            }
            info.color_binding = prim.color;
            self.tile.add_prim_dependency(
                &info,
                &self.cache,
                self.clamp,
                &raster_tile,
                tile_rect(),
            );
        }
    }

    /// Decides the validity of the tile.
    fn update(&mut self, invalidate_all: bool) {
        let ctx = TileUpdateDirtyContext {
            opacity_bindings: &self.opacity,
            color_bindings: &self.colors,
            local_rect: tile_rect(),
            invalidate_all,
        };
        let mut state = TileUpdateDirtyState {
            resource_cache: &self.resources,
            composite_state: CompositeState {
                dirty_rects_are_valid: self.composite.dirty_rects_are_valid,
            },
            compare_cache: std::mem::take(&mut self.compare_cache),
        };
        self.tile.update_content_validity(&ctx, &mut state);
        self.composite = state.composite_state;
        self.compare_cache = state.compare_cache;
    }

    fn render(&mut self, prims: &[Prim]) {
        self.build(prims, None, true);
        self.update(false);
    }

    /// What the renderer does once it has drawn the dirty part.
    fn rasterized(&mut self) {
        self.tile.is_valid = true;
        self.tile.local_dirty_rect = Box2D::zero();
    }
}

fn image(key: u32, generation: u32) -> ImageDependency {
    ImageDependency {
        key: ImageKey(IdNamespace(1), key),
        generation: ImageGeneration(generation),
    }
}

fn binding_id(uid: u32) -> PropertyBindingId {
    PropertyBindingId { namespace: IdNamespace(3), uid }
}

#[test]
fn test_basic() {
    let mut scene = Scene::new();
    let prims = [rect_prim(1, pr(100, 100, 500, 100))];
    scene.render(&prims);
    assert!(!scene.tile.is_valid);
    assert_eq!(scene.tile.local_valid_rect, pr(100, 100, 500, 100));
    assert_eq!(scene.tile.local_valid_rect, Box2D::from_coords(100, 100, 600, 200));
    assert_eq!(scene.tile.local_dirty_rect, Box2D::from_coords(100, 100, 600, 200));
    assert_eq!(scene.tile.invalidation_reason, Some(InvalidationReason::Descriptor));

    scene.rasterized();
    scene.render(&prims);
    assert!(scene.tile.is_valid);
    assert!(scene.tile.local_dirty_rect.is_empty());
    assert_eq!(scene.tile.invalidation_reason, None);
}

#[test]
fn test_composite_nop() {
    let mut scene = Scene::new();
    scene.render(&[rect_prim(1, pr(100, 100, 100, 100))]);
    assert!(!scene.tile.is_valid);
    assert_eq!(scene.tile.local_valid_rect, pr(100, 100, 100, 100));
    assert_eq!(scene.tile.local_dirty_rect, pr(100, 100, 100, 100));

    scene.rasterized();
    scene.render(&[rect_prim(1, pr(100, 120, 100, 100))]);
    assert!(!scene.tile.is_valid);
    assert_eq!(scene.tile.local_valid_rect, pr(100, 120, 100, 100));
    assert_eq!(scene.tile.local_dirty_rect, pr(100, 120, 100, 100));
    assert_eq!(scene.tile.invalidation_reason, Some(InvalidationReason::Descriptor));
}

#[test]
fn test_scroll_subpic() {
    // The content of a scrolled picture keeps its uids and, relative to the
    // node of the tile cache, its corners: a scroll hands the tile the same
    // primitives again.
    let mut scene = Scene::new();
    let prims = [rect_prim(11, pr(0, 0, 400, 2000)), rect_prim(12, pr(50, 300, 100, 100))];
    scene.render(&prims);
    assert!(!scene.tile.is_valid);
    assert!(!scene.tile.local_dirty_rect.is_empty());

    scene.rasterized();
    scene.render(&prims);
    assert!(scene.tile.is_valid);
    assert_eq!(scene.tile.invalidation_reason, None);
}

#[test]
fn test_image_gen_bump() {
    let mut scene = Scene::new();
    let mut prim = rect_prim(1, pr(10, 20, 300, 200));
    prim.images.push(image(5, 1));
    scene.resources.set_image_generation(ImageKey(IdNamespace(1), 5), ImageGeneration(1));
    scene.render(&[rect_prim(2, pr(500, 500, 100, 100)), prim.clone()]);
    scene.rasterized();
    scene.render(&[rect_prim(2, pr(500, 500, 100, 100)), prim.clone()]);
    assert!(scene.tile.is_valid);

    // The bitmap is replaced: the scene records the new generation.
    scene.resources.set_image_generation(ImageKey(IdNamespace(1), 5), ImageGeneration(2));
    let mut bumped = prim.clone();
    bumped.images[0] = image(5, 2);
    scene.render(&[rect_prim(2, pr(500, 500, 100, 100)), bumped]);
    assert!(!scene.tile.is_valid);
    assert_eq!(scene.tile.invalidation_reason, Some(InvalidationReason::Image));
    assert_eq!(scene.tile.local_dirty_rect, pr(10, 20, 300, 200));
}

#[test]
fn test_image_replaced_behind_the_descriptor() {
    // Key and recorded generation are the same in both frames, but the
    // resource cache reports a newer generation.
    let mut scene = Scene::new();
    let mut prim = rect_prim(1, pr(10, 20, 300, 200));
    prim.images.push(image(5, 1));
    scene.resources.set_image_generation(ImageKey(IdNamespace(1), 5), ImageGeneration(1));
    scene.render(&[prim.clone()]);
    scene.rasterized();
    scene.resources.set_image_generation(ImageKey(IdNamespace(1), 5), ImageGeneration(9));
    scene.render(&[prim.clone()]);
    assert!(!scene.tile.is_valid);
    assert_eq!(scene.tile.invalidation_reason, Some(InvalidationReason::Image));
    assert!(scene.tile.local_dirty_rect.contains_box(&pr(10, 20, 300, 200)));
}

#[test]
fn test_unknown_image_is_stale() {
    let mut scene = Scene::new();
    let mut prim = rect_prim(1, pr(10, 20, 300, 200));
    prim.images.push(image(5, 1));
    scene.render(&[prim.clone()]);
    scene.rasterized();
    scene.render(&[prim.clone()]);
    assert_eq!(scene.tile.invalidation_reason, Some(InvalidationReason::Image));
}

#[test]
fn test_opacity_binding_change() {
    let mut scene = Scene::new();
    let mut prim = rect_prim(1, pr(10, 20, 300, 200));
    prim.opacities.push(Binding::Binding(binding_id(4)));
    scene.opacity.insert(binding_id(4).key(), BindingInfo { value: 0x3f00_0000, changed: false });
    scene.render(&[prim.clone()]);
    scene.rasterized();
    scene.render(&[prim.clone()]);
    assert!(scene.tile.is_valid);

    scene.opacity.insert(binding_id(4).key(), BindingInfo { value: 0x3e00_0000, changed: true });
    scene.render(&[prim.clone()]);
    assert!(!scene.tile.is_valid);
    assert_eq!(scene.tile.invalidation_reason, Some(InvalidationReason::OpacityBinding));
    assert_eq!(scene.tile.local_dirty_rect, pr(10, 20, 300, 200));
}

#[test]
fn test_opacity_value_change() {
    let mut scene = Scene::new();
    let mut prim = rect_prim(1, pr(10, 20, 300, 200));
    prim.opacities.push(Binding::Value(0x3f80_0000));
    scene.render(&[prim.clone()]);
    scene.rasterized();
    scene.render(&[prim.clone()]);
    assert!(scene.tile.is_valid);
    prim.opacities[0] = Binding::Value(0x3f00_0000);
    scene.render(&[prim.clone()]);
    assert_eq!(scene.tile.invalidation_reason, Some(InvalidationReason::OpacityBinding));
}

#[test]
fn test_binding_missing_from_table_counts_as_changed() {
    let mut scene = Scene::new();
    let mut prim = rect_prim(1, pr(10, 20, 300, 200));
    prim.color = Some(Binding::Binding(binding_id(8)));
    scene.render(&[prim.clone()]);
    scene.rasterized();
    scene.render(&[prim.clone()]);
    assert_eq!(scene.tile.invalidation_reason, Some(InvalidationReason::ColorBinding));
}

#[test]
fn test_color_binding_change() {
    let mut scene = Scene::new();
    let mut prim = rect_prim(1, pr(10, 20, 300, 200));
    prim.color = Some(Binding::Value(ColorU::new(1, 2, 3, 255)));
    scene.render(&[prim.clone()]);
    scene.rasterized();
    scene.render(&[prim.clone()]);
    assert!(scene.tile.is_valid);
    prim.color = Some(Binding::Value(ColorU::new(1, 2, 4, 255)));
    scene.render(&[prim.clone()]);
    assert!(!scene.tile.is_valid);
    assert_eq!(scene.tile.invalidation_reason, Some(InvalidationReason::ColorBinding));

    scene.rasterized();
    prim.color = Some(Binding::Binding(binding_id(8)));
    scene.colors.insert(
        binding_id(8).key(),
        BindingInfo { value: ColorU::new(0, 0, 0, 0), changed: false },
    );
    scene.render(&[prim.clone()]);
    assert_eq!(scene.tile.invalidation_reason, Some(InvalidationReason::ColorBinding));
    scene.rasterized();
    scene.render(&[prim.clone()]);
    assert!(scene.tile.is_valid);
}

#[test]
fn test_clip_outside_tile() {
    // The primitive reaches beyond the tile, and its clip changes only
    // there: what the tile keeps of it is clamped to the tile and stays.
    let mut scene = Scene::new();
    let mut prim = rect_prim(1, pr(100, 100, 1400, 100));
    prim.coverage = Box2D::from_coords(100, 100, 1200, 200);
    scene.render(&[prim.clone()]);
    assert_eq!(scene.tile.local_dirty_rect, Box2D::from_coords(100, 100, 1000, 200));
    scene.rasterized();
    prim.coverage = Box2D::from_coords(100, 100, 1400, 200);
    scene.render(&[prim.clone()]);
    assert!(scene.tile.is_valid);
    assert_eq!(scene.tile.invalidation_reason, None);
    // The valid rectangle is joined from the bounds as they are.
    assert_eq!(scene.tile.local_valid_rect, Box2D::from_coords(100, 100, 1400, 200));
    assert_eq!(
        scene.tile.current_descriptor.prims[0].prim_clip_box,
        Box2D::from_coords(100, 100, 1000, 200)
    );
}

#[test]
fn test_clip_record_outside_tile() {
    // A clip of the primitive reaches beyond the tile, and its far edge
    // moves there: clamped to the tile, its corners are the same.
    let mut scene = Scene::new();
    let mut prim = rect_prim(1, pr(100, 100, 200, 100));
    prim.clips.push((40, Box2D::from_coords(0, 0, 2000, 500)));
    scene.render(&[prim.clone()]);
    scene.rasterized();
    prim.clips[0].1 = Box2D::from_coords(0, 0, 3000, 500);
    scene.render(&[prim.clone()]);
    assert!(scene.tile.is_valid);
    assert_eq!(scene.tile.invalidation_reason, None);
    let desc = &scene.tile.current_descriptor;
    assert_eq!(desc.vert_data, scene.tile.prev_descriptor.vert_data);
    assert_eq!(desc.dep_data, scene.tile.prev_descriptor.dep_data);
    assert_eq!(&desc.vert_data[8..12], &[0, 0, 4000, 2000]);

    // A change inside the tile is seen.
    prim.clips[0].1 = Box2D::from_coords(0, 0, 3000, 400);
    scene.render(&[prim.clone()]);
    assert!(!scene.tile.is_valid);
    assert_eq!(scene.tile.invalidation_reason, Some(InvalidationReason::Clip));
}

#[test]
fn test_clip_record_outside_tile_without_clamping() {
    let mut scene = Scene::new();
    scene.clamp = false;
    let mut prim = rect_prim(1, pr(100, 100, 200, 100));
    prim.clips.push((40, Box2D::from_coords(0, 0, 2000, 500)));
    scene.render(&[prim.clone()]);
    scene.rasterized();
    prim.clips[0].1 = Box2D::from_coords(0, 0, 3000, 500);
    scene.render(&[prim.clone()]);
    assert!(!scene.tile.is_valid);
    assert_eq!(scene.tile.invalidation_reason, Some(InvalidationReason::Clip));
}

#[test]
fn test_removed_primitive_is_dirty() {
    // The second primitive lies within the first and goes away: the valid
    // rectangle is the same, the place where it was has to be drawn again.
    let mut scene = Scene::new();
    let a = rect_prim(1, pr(100, 100, 500, 300));
    let b = rect_prim(2, pr(200, 150, 50, 60));
    scene.render(&[a.clone(), b.clone()]);
    scene.rasterized();
    scene.render(&[a.clone(), b.clone()]);
    assert!(scene.tile.is_valid);
    scene.render(&[a.clone()]);
    assert!(!scene.tile.is_valid);
    assert_eq!(scene.tile.invalidation_reason, Some(InvalidationReason::Descriptor));
    assert_eq!(scene.tile.local_dirty_rect, pr(200, 150, 50, 60));
    assert_eq!(scene.tile.local_valid_rect, pr(100, 100, 500, 300));
    // Only the pair at the first position was compared.
    assert_eq!(scene.compare_cache.len(), 1);

    // All primitives go away.
    scene.rasterized();
    scene.render(&[]);
    assert!(!scene.tile.is_valid);
    assert_eq!(scene.tile.invalidation_reason, Some(InvalidationReason::Descriptor));
    assert_eq!(scene.tile.local_dirty_rect, pr(100, 100, 500, 300));
    scene.rasterized();
    scene.render(&[]);
    assert!(scene.tile.is_valid);
}

#[test]
fn test_changed_comes_before_removed() {
    // The first primitive changes its image, the second goes away: the
    // reason is that of the first in the order of the scene.
    let mut scene = Scene::new();
    let mut a = rect_prim(1, pr(600, 600, 100, 100));
    a.images.push(image(5, 1));
    let b = rect_prim(2, pr(0, 0, 100, 100));
    scene.resources.set_image_generation(ImageKey(IdNamespace(1), 5), ImageGeneration(1));
    scene.render(&[a.clone(), b.clone()]);
    scene.rasterized();
    scene.resources.set_image_generation(ImageKey(IdNamespace(1), 5), ImageGeneration(2));
    scene.render(&[a.clone()]);
    assert_eq!(scene.tile.invalidation_reason, Some(InvalidationReason::Image));
    assert_eq!(scene.tile.local_dirty_rect, Box2D::from_coords(0, 0, 700, 700));
}

#[test]
fn test_clip_outside_tile_without_clamping() {
    let mut scene = Scene::new();
    scene.clamp = false;
    let mut prim = rect_prim(1, pr(100, 100, 1400, 100));
    prim.coverage = Box2D::from_coords(100, 100, 1200, 200);
    scene.render(&[prim.clone()]);
    scene.rasterized();
    prim.coverage = Box2D::from_coords(100, 100, 1400, 200);
    scene.render(&[prim.clone()]);
    assert!(!scene.tile.is_valid);
    assert_eq!(scene.tile.invalidation_reason, Some(InvalidationReason::Descriptor));
}

#[test]
fn test_clip_dependency_change() {
    let mut scene = Scene::new();
    let mut prim = rect_prim(1, pr(100, 100, 200, 100));
    prim.clips.push((40, pr(0, 0, 500, 500)));
    prim.clips.push((41, pr(50, 50, 500, 500)));
    scene.render(&[prim.clone()]);
    scene.rasterized();
    scene.render(&[prim.clone()]);
    assert!(scene.tile.is_valid);

    // The second clip moves.
    prim.clips[1].1 = pr(50, 60, 500, 500);
    scene.render(&[prim.clone()]);
    assert_eq!(scene.tile.invalidation_reason, Some(InvalidationReason::Clip));
    scene.rasterized();

    // The first clip is replaced by another template at the same place.
    prim.clips[0].0 = 42;
    scene.render(&[prim.clone()]);
    assert_eq!(scene.tile.invalidation_reason, Some(InvalidationReason::Clip));
    scene.rasterized();

    // A clip goes away: the numbers of dependencies differ.
    prim.clips.pop();
    scene.render(&[prim.clone()]);
    assert_eq!(scene.tile.invalidation_reason, Some(InvalidationReason::Descriptor));
}

#[test]
fn test_dependency_kind_change() {
    let mut scene = Scene::new();
    let mut prim = rect_prim(1, pr(100, 100, 200, 100));
    prim.opacities.push(Binding::Value(7));
    scene.render(&[prim.clone()]);
    scene.rasterized();
    prim.opacities.clear();
    prim.color = Some(Binding::Value(ColorU::new(7, 0, 0, 0)));
    scene.render(&[prim.clone()]);
    assert_eq!(scene.tile.invalidation_reason, Some(InvalidationReason::Descriptor));
}

#[test]
fn test_invisible_tile_keeps_its_baseline() {
    let mut scene = Scene::new();
    let prims = [rect_prim(1, pr(100, 100, 500, 100))];
    scene.render(&prims);
    scene.rasterized();

    // Out of view for two frames: nothing is rebuilt.
    scene.build(&prims, None, false);
    scene.build(&prims, None, false);
    assert_eq!(scene.tile.current_descriptor.prims.len(), 1);
    assert_eq!(scene.tile.current_descriptor.last_updated_frame_id, FrameId(1));
    assert!(scene.tile.is_valid);

    // In view again with the same content: compared with frame 1, valid.
    scene.render(&prims);
    assert_eq!(scene.tile.prev_descriptor.prims.len(), 1);
    assert_eq!(scene.tile.prev_descriptor.last_updated_frame_id, FrameId(1));
    assert_eq!(scene.tile.current_descriptor.last_updated_frame_id, FrameId(4));
    assert!(scene.tile.is_valid);

    // And with changed content after another absence: dirty.
    scene.build(&prims, None, false);
    scene.render(&[rect_prim(1, pr(100, 101, 500, 100))]);
    assert!(!scene.tile.is_valid);
    assert_eq!(scene.tile.invalidation_reason, Some(InvalidationReason::Descriptor));
}

#[test]
fn test_swapped_primitives() {
    let mut scene = Scene::new();
    let a = rect_prim(1, pr(0, 0, 100, 100));
    let b = rect_prim(2, pr(200, 300, 100, 100));
    scene.render(&[a.clone(), b.clone()]);
    scene.rasterized();
    scene.render(&[b.clone(), a.clone()]);
    assert!(!scene.tile.is_valid);
    assert_eq!(scene.tile.invalidation_reason, Some(InvalidationReason::Descriptor));
    // Both positions differ: both primitives are dirty.
    assert_eq!(scene.tile.local_dirty_rect, Box2D::from_coords(0, 0, 300, 400));
    let first = PrimitiveComparisonKey {
        prev_index: PrimitiveDependencyIndex(0),
        curr_index: PrimitiveDependencyIndex(0),
    };
    let second = PrimitiveComparisonKey {
        prev_index: PrimitiveDependencyIndex(1),
        curr_index: PrimitiveDependencyIndex(1),
    };
    assert_eq!(scene.compare_cache.get(&first.key()), Some(&PrimitiveCompareResult::Descriptor));
    assert_eq!(scene.compare_cache.get(&second.key()), Some(&PrimitiveCompareResult::Descriptor));
    assert_eq!(scene.compare_cache.len(), 2);
}

#[test]
fn test_first_reason_in_scene_order() {
    // The image changes at position 0, the opacity at position 1.
    let mut scene = Scene::new();
    let mut a = rect_prim(1, pr(600, 600, 100, 100));
    a.images.push(image(5, 1));
    let mut b = rect_prim(2, pr(0, 0, 100, 100));
    b.opacities.push(Binding::Value(1));
    scene.resources.set_image_generation(ImageKey(IdNamespace(1), 5), ImageGeneration(1));
    scene.render(&[a.clone(), b.clone()]);
    scene.rasterized();
    scene.resources.set_image_generation(ImageKey(IdNamespace(1), 5), ImageGeneration(2));
    b.opacities[0] = Binding::Value(2);
    scene.render(&[a.clone(), b.clone()]);
    assert_eq!(scene.tile.invalidation_reason, Some(InvalidationReason::Image));
    assert_eq!(scene.tile.local_dirty_rect, Box2D::from_coords(0, 0, 700, 700));
}

#[test]
fn test_reason_is_sticky() {
    let mut tile = CachedSurface::new();
    tile.local_rect = tile_rect();
    tile.invalidate(Some(pr(1, 1, 10, 10)), InvalidationReason::Clip);
    assert_eq!(tile.invalidation_reason, Some(InvalidationReason::Clip));
    assert_eq!(tile.local_dirty_rect, pr(1, 1, 10, 10));
    tile.invalidate(Some(pr(5, 5, 10, 10)), InvalidationReason::Image);
    assert_eq!(tile.invalidation_reason, Some(InvalidationReason::Clip));
    assert_eq!(tile.local_dirty_rect, Box2D::from_coords(1, 1, 15, 15));
    tile.invalidate(None, InvalidationReason::ScaleChanged);
    assert_eq!(tile.invalidation_reason, Some(InvalidationReason::Clip));
    assert_eq!(tile.local_dirty_rect, tile_rect());
    assert!(!tile.is_valid);
}

#[test]
fn test_reason_is_cleared_by_pre_update() {
    let mut scene = Scene::new();
    scene.render(&[rect_prim(1, pr(100, 100, 500, 100))]);
    assert_eq!(scene.tile.invalidation_reason, Some(InvalidationReason::Descriptor));
    scene.build(&[rect_prim(1, pr(100, 100, 500, 100))], None, true);
    assert_eq!(scene.tile.invalidation_reason, None);
    assert_eq!(scene.tile.local_valid_rect, pr(100, 100, 500, 100));
}

#[test]
fn test_background_color() {
    let mut scene = Scene::new();
    let prims = [rect_prim(1, pr(100, 100, 500, 100))];
    let white = Some(ColorF::new(0x3f80_0000, 0x3f80_0000, 0x3f80_0000, 0x3f80_0000));
    scene.build(&prims, white, true);
    assert_eq!(scene.tile.invalidation_reason, Some(InvalidationReason::BackgroundColor));
    assert_eq!(scene.tile.local_dirty_rect, tile_rect());
    assert_eq!(scene.tile.background_color, white);
    scene.update(false);
    // The first reason of the frame stays.
    assert_eq!(scene.tile.invalidation_reason, Some(InvalidationReason::BackgroundColor));

    scene.rasterized();
    scene.build(&prims, white, true);
    scene.update(false);
    assert!(scene.tile.is_valid);

    // A tile that is not visible does not look at the colour.
    scene.build(&prims, None, false);
    assert!(scene.tile.is_valid);
    assert_eq!(scene.tile.background_color, white);
}

#[test]
fn test_scale_changed() {
    let mut scene = Scene::new();
    let prims = [rect_prim(1, pr(100, 100, 500, 100))];
    scene.render(&prims);
    scene.rasterized();
    scene.build(&prims, None, true);
    scene.update(true);
    assert!(!scene.tile.is_valid);
    assert_eq!(scene.tile.invalidation_reason, Some(InvalidationReason::ScaleChanged));
    assert_eq!(scene.tile.local_dirty_rect, tile_rect());
    assert!(scene.composite.dirty_rects_are_valid);
}

#[test]
fn test_valid_rect_changed() {
    let mut scene = Scene::new();
    let prims = [rect_prim(1, pr(100, 100, 500, 100))];
    scene.build(&prims, None, true);
    scene.tile.current_descriptor.local_valid_rect = scene.tile.local_valid_rect;
    scene.update(false);
    assert!(!scene.composite.dirty_rects_are_valid);
    assert_eq!(scene.tile.local_dirty_rect, tile_rect());
    // The content was dirty first.
    assert_eq!(scene.tile.invalidation_reason, Some(InvalidationReason::Descriptor));

    scene.rasterized();
    scene.composite.dirty_rects_are_valid = true;
    scene.build(&prims, None, true);
    scene.tile.current_descriptor.local_valid_rect = scene.tile.local_valid_rect;
    scene.update(false);
    assert!(scene.tile.is_valid);
    assert!(scene.composite.dirty_rects_are_valid);

    scene.build(&prims, None, true);
    scene.tile.current_descriptor.local_valid_rect = pr(100, 100, 500, 101);
    scene.update(false);
    assert!(!scene.tile.is_valid);
    assert_eq!(scene.tile.invalidation_reason, Some(InvalidationReason::ValidRectChanged));
    assert!(!scene.composite.dirty_rects_are_valid);
}

#[test]
fn test_validity_is_coherent_after_update() {
    let mut scene = Scene::new();
    let frames: Vec<Vec<Prim>> = vec![
        vec![rect_prim(1, pr(100, 100, 500, 100))],
        vec![rect_prim(1, pr(100, 100, 500, 100))],
        vec![rect_prim(1, pr(100, 100, 500, 100)), rect_prim(2, pr(0, 0, 10, 10))],
        vec![rect_prim(3, pr(100, 100, 500, 100))],
        vec![rect_prim(3, pr(100, 100, 500, 100))],
    ];
    for prims in &frames {
        scene.rasterized();
        scene.render(prims);
        let tile = &scene.tile;
        assert_eq!(
            tile.is_valid,
            tile.local_dirty_rect.is_empty() && tile.invalidation_reason.is_none()
        );
    }
}

#[test]
fn test_primitive_outside_the_tile() {
    // A primitive that does not reach into the tile is listed nowhere: a
    // change of it dirties nothing.
    let mut scene = Scene::new();
    scene.render(&[rect_prim(1, pr(100, 100, 50, 50)), rect_prim(2, pr(2000, 2000, 50, 50))]);
    scene.rasterized();
    scene.render(&[rect_prim(1, pr(100, 100, 50, 50)), rect_prim(2, pr(2100, 2000, 50, 50))]);
    assert!(scene.tile.is_valid);
    assert_eq!(scene.compare_cache.len(), 1);
}

#[test]
fn test_added_primitive_is_dirty() {
    let mut scene = Scene::new();
    scene.render(&[rect_prim(1, pr(100, 100, 50, 50))]);
    scene.rasterized();
    scene.render(&[rect_prim(1, pr(100, 100, 50, 50)), rect_prim(2, pr(300, 300, 50, 50))]);
    assert!(!scene.tile.is_valid);
    assert_eq!(scene.tile.invalidation_reason, Some(InvalidationReason::Descriptor));
    assert_eq!(scene.tile.local_dirty_rect, pr(300, 300, 50, 50));
}

#[test]
fn test_many_primitives_split_the_tree() {
    // Far more primitives than one leaf lists, all in one corner and one
    // across the whole tile.
    let mut prims: Vec<Prim> = Vec::new();
    for i in 0..60 {
        prims.push(rect_prim(100 + i as u64, pr(i, 2 * i, 30, 30)));
    }
    prims.push(rect_prim(7, pr(0, 0, 1000, 1000)));
    for i in 0..40 {
        prims.push(rect_prim(200 + i as u64, pr(900 + i, 900, 20, 20)));
    }
    let mut scene = Scene::new();
    scene.render(&prims);
    assert_eq!(scene.tile.local_dirty_rect, tile_rect());
    scene.rasterized();
    scene.render(&prims);
    assert!(scene.tile.is_valid);
    assert_eq!(scene.compare_cache.len(), prims.len());

    // One small primitive of each corner changes.
    let mut changed = prims.clone();
    changed[10] = rect_prim(110, pr(10, 21, 30, 30));
    changed[80] = rect_prim(219, pr(919, 901, 20, 20));
    scene.render(&changed);
    assert!(!scene.tile.is_valid);
    assert_eq!(scene.tile.local_dirty_rect, Box2D::from_coords(10, 21, 939, 921));
    let dirty: Vec<u64> = (0..prims.len() as u32)
        .filter(|i| {
            let key = PrimitiveComparisonKey {
                prev_index: PrimitiveDependencyIndex(*i),
                curr_index: PrimitiveDependencyIndex(*i),
            };
            scene.compare_cache.get(&key.key()) != Some(&PrimitiveCompareResult::Equal)
        })
        .map(|i| i as u64)
        .collect();
    assert_eq!(dirty, vec![10, 80]);
}

#[test]
fn test_descriptor_is_consistent() {
    let mut scene = Scene::new();
    let mut a = rect_prim(1, pr(10, 20, 300, 200));
    a.clips.push((40, pr(0, 0, 500, 500)));
    a.images.push(image(5, 1));
    a.images.push(image(6, 1));
    a.opacities.push(Binding::Value(9));
    a.color = Some(Binding::Binding(binding_id(2)));
    let b = rect_prim(2, pr(500, 500, 100, 100));
    let mut c = rect_prim(3, pr(0, 0, 100, 100));
    c.opacities.push(Binding::Binding(binding_id(4)));
    scene.render(&[a, b, c]);

    let desc = &scene.tile.current_descriptor;
    assert_eq!(desc.prims.len(), 3);
    assert_eq!(desc.prims[0].dep_count, 5);
    assert_eq!(desc.prims[1].dep_count, 0);
    assert_eq!(desc.prims[2].dep_count, 1);
    assert_eq!(desc.prims[0].dep_offset, 0);
    assert_eq!(desc.prims[1].dep_offset, 17 + 13 + 13 + 10 + 10);
    assert_eq!(desc.prims[2].dep_offset, 63);
    assert_eq!(desc.dep_data.len(), 73);

    // The counts add up to the records of the stream, offsets rise.
    let mut at = 0usize;
    let mut records = 0u32;
    let mut offsets = Vec::new();
    while at < desc.dep_data.len() {
        offsets.push(at);
        let (_, next) = decode_dependency(&desc.dep_data, at).expect("a record");
        assert!(next > at);
        at = next;
        records += 1;
    }
    assert_eq!(at, desc.dep_data.len());
    assert_eq!(records, desc.prims.iter().map(|p| p.dep_count).sum::<u32>());
    for prim in &desc.prims {
        if prim.dep_count > 0 {
            assert!(offsets.contains(&(prim.dep_offset as usize)));
        }
    }
    for pair in desc.prims.windows(2) {
        assert!(pair[0].dep_offset <= pair[1].dep_offset);
    }

    // Every window has 0, 4 or 8 coordinates inside the buffer.
    let len = desc.vert_data.len() as u32;
    for prim in &desc.prims {
        for range in [prim.prim_corners, prim.coverage_corners] {
            assert!(range.count == 0 || range.count == 4 || range.count == 8);
            assert!(range.offset + range.count <= len);
        }
    }
    assert_eq!(desc.vert_data.len(), 3 * 8 + 4);
    assert_eq!(&desc.vert_data[0..4], &[40, 80, 1240, 880]);
}

#[test]
fn test_rendering_twice_gives_equal_descriptors() {
    let mut scene = Scene::new();
    let mut a = rect_prim(1, pr(10, 20, 300, 200));
    a.clips.push((40, pr(0, 0, 500, 500)));
    a.images.push(image(5, 1));
    scene.resources.set_image_generation(ImageKey(IdNamespace(1), 5), ImageGeneration(1));
    let prims = [a, rect_prim(2, pr(500, 500, 100, 100))];
    scene.render(&prims);
    scene.rasterized();
    scene.render(&prims);
    let tile = &scene.tile;
    assert_eq!(tile.prev_descriptor.vert_data, tile.current_descriptor.vert_data);
    assert_eq!(tile.prev_descriptor.dep_data, tile.current_descriptor.dep_data);
    assert_eq!(tile.prev_descriptor.prims, tile.current_descriptor.prims);
    assert!(tile.is_valid);
    assert!(scene.compare_cache.values().all(|r| *r == PrimitiveCompareResult::Equal));
    assert_eq!(scene.compare_cache.len(), 2);
}

#[test]
fn test_unprojectable_primitive_always_invalidates() {
    let mut scene = Scene::new();
    let node = SpatialNodeIndex(1);
    for _ in 0..2 {
        scene.rasterized();
        scene.cache.pre_update();
        scene.tile.pre_update(None, tile_rect(), FrameId(1), true);
        scene.cache.clear_scratch();
        scene.cache.set_relative_transform(node, CoordinateSpaceMapping::Transform);
        let mut info = PrimitiveDependencyInfo::new(ItemUid::new(1), pr(10, 10, 50, 50));
        let mut quad = corners(&pr(10, 10, 50, 50));
        quad.bottom_left = None;
        info.prim_scratch = scene.cache.compute_to_scratch(node, &quad);
        info.cov_scratch = scene.cache.compute_to_scratch(node, &quad);
        assert!(!info.prim_scratch.is_valid());
        let raster = tile_rect();
        scene.tile.add_prim_dependency(&info, &scene.cache, false, &raster, tile_rect());
        scene.update(false);
        assert!(!scene.tile.is_valid);
        assert_eq!(scene.tile.invalidation_reason, Some(InvalidationReason::Descriptor));
        assert_eq!(scene.tile.local_dirty_rect, pr(10, 10, 50, 50));
    }
}

#[test]
fn test_room_for_a_primitive() {
    let scene = Scene::new();
    let mut info = PrimitiveDependencyInfo::new(ItemUid::new(1), pr(0, 0, 10, 10));
    for i in 0..100 {
        info.images.push(image(i, 1));
    }
    info.color_binding = Some(Binding::Value(ColorU::new(0, 0, 0, 0)));
    assert!(scene.tile.current_descriptor.has_room(&info));
}
