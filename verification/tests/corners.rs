//! Boxes, windows and the corners cache.

use tile_invalidation::condition::{BoolValue, Operator};
use tile_invalidation::ids::{
    IdNamespace, ImageKey, ItemUid, PropertyBinding, PropertyBindingId, PropertyBindingKey,
    SpatialNodeIndex,
};
use tile_invalidation::normalizer::NormalizationForm;
use tile_invalidation::invalidation::compare::{
    Binding, ImageDependency, PrimitiveComparisonKey,
};
use tile_invalidation::ids::ImageGeneration;
use tile_invalidation::invalidation::cached_surface::PrimitiveDependencyIndex;
use tile_invalidation::invalidation::dep_lists::{ClipList, ImageList, OpacityBindingList};
use tile_invalidation::invalidation::vert_buffer::{
    CoordinateSpaceMapping, CornersCache, ProjectedCorners, VertRange,
};
use tile_invalidation::invalidation::PrimitiveCompareResult;
use tile_invalidation::invalidation::InvalidationReason;
use tile_invalidation::units::{clamp_i32, max_i32, min_i32, Box2D, Point2D};

fn p(x: i32, y: i32) -> Point2D {
    Point2D::new(x, y)
}

#[test]
fn test_box_union() {
    let a = Box2D::from_coords(0, 0, 10, 10);
    let b = Box2D::from_coords(5, -5, 20, 8);
    assert_eq!(a.union(&b), Box2D::from_coords(0, -5, 20, 10));
    assert_eq!(b.union(&a), Box2D::from_coords(0, -5, 20, 10));
    // An empty box counts for nothing.
    let empty = Box2D::from_coords(100, 100, 100, 200);
    assert!(empty.is_empty());
    assert_eq!(a.union(&empty), a);
    assert_eq!(empty.union(&a), a);
    assert_eq!(Box2D::zero().union(&a), a);
    assert_eq!(Box2D::nothing().union(&a), a);
    assert_eq!(Box2D::nothing().union(&empty), Box2D::nothing());
    assert!(Box2D::nothing().is_empty());
    assert!(Box2D::zero().is_empty());
    assert!(!a.is_empty());
    assert!(Box2D::from_coords(3, 0, 2, 10).is_empty());
}

#[test]
fn test_box_intersects_and_contains() {
    let a = Box2D::from_coords(0, 0, 10, 10);
    assert!(a.intersects(&Box2D::from_coords(9, 9, 20, 20)));
    assert!(!a.intersects(&Box2D::from_coords(10, 0, 20, 10)));
    assert!(!a.intersects(&Box2D::from_coords(3, 3, 3, 8)));
    assert!(!Box2D::from_coords(3, 3, 3, 8).intersects(&a));
    assert!(a.contains_box(&Box2D::from_coords(0, 0, 10, 10)));
    assert!(a.contains_box(&Box2D::from_coords(2, 2, 5, 5)));
    assert!(!a.contains_box(&Box2D::from_coords(2, 2, 11, 5)));
    assert!(a.contains_box(&Box2D::from_coords(50, 50, 50, 50)));
}

#[test]
fn test_clamp() {
    assert_eq!(clamp_i32(5, 0, 10), 5);
    assert_eq!(clamp_i32(-5, 0, 10), 0);
    assert_eq!(clamp_i32(15, 0, 10), 10);
    assert_eq!(clamp_i32(5, 10, 0), 0);
    assert_eq!(min_i32(3, -3), -3);
    assert_eq!(max_i32(3, -3), 3);
    let tile = Box2D::from_coords(0, 0, 1000, 1000);
    assert_eq!(
        Box2D::from_coords(-10, 20, 1200, 900).clamp_to(&tile),
        Box2D::from_coords(0, 20, 1000, 900)
    );
    assert_eq!(
        Box2D::from_coords(2000, 2000, 2050, 2050).clamp_to(&tile),
        Box2D::from_coords(1000, 1000, 1000, 1000)
    );
}

#[test]
fn test_vert_range() {
    assert!(!VertRange::invalid().is_valid());
    assert_eq!(VertRange::invalid(), VertRange { offset: 0, count: 0 });
    assert!(VertRange { offset: 0, count: 4 }.is_valid());
}

#[test]
fn test_mapping_promotion() {
    assert_eq!(CoordinateSpaceMapping::Local.promoted(), CoordinateSpaceMapping::Local);
    assert_eq!(
        CoordinateSpaceMapping::ScaleOffset { reflection: false }.promoted(),
        CoordinateSpaceMapping::ScaleOffset { reflection: false }
    );
    assert_eq!(
        CoordinateSpaceMapping::ScaleOffset { reflection: true }.promoted(),
        CoordinateSpaceMapping::Transform
    );
    assert_eq!(CoordinateSpaceMapping::Transform.promoted(), CoordinateSpaceMapping::Transform);
}

#[test]
fn test_transform_cache() {
    let mut cache = CornersCache::new();
    let a = SpatialNodeIndex(1);
    let b = SpatialNodeIndex(2);
    assert_eq!(cache.cached_mapping(a), None);
    let kept = cache.set_relative_transform(a, CoordinateSpaceMapping::ScaleOffset {
        reflection: true,
    });
    assert_eq!(kept, CoordinateSpaceMapping::Transform);
    assert_eq!(cache.cached_mapping(a), Some(CoordinateSpaceMapping::Transform));
    assert_eq!(cache.cached_mapping(b), None);
    cache.set_relative_transform(b, CoordinateSpaceMapping::Local);
    assert_eq!(cache.cached_mapping(a), None);
    assert_eq!(cache.cached_mapping(b), Some(CoordinateSpaceMapping::Local));
    cache.pre_update();
    assert_eq!(cache.cached_mapping(b), None);
}

#[test]
fn test_compute_to_scratch() {
    let mut cache = CornersCache::new();
    let node = SpatialNodeIndex(1);
    let corners = ProjectedCorners::axis_aligned(p(1, 2), p(30, 40));
    assert_eq!(corners.top_right, Some(p(30, 2)));
    assert_eq!(corners.bottom_left, Some(p(1, 40)));

    // No mapping is cached for the node.
    assert_eq!(cache.compute_to_scratch(node, &corners), VertRange::invalid());

    cache.set_relative_transform(node, CoordinateSpaceMapping::Local);
    assert_eq!(cache.compute_to_scratch(node, &corners), VertRange { offset: 0, count: 2 });
    assert_eq!(cache.compute_to_scratch(node, &corners), VertRange { offset: 2, count: 2 });
    assert_eq!(
        cache.compute_to_scratch(SpatialNodeIndex(9), &corners),
        VertRange::invalid()
    );

    cache.set_relative_transform(node, CoordinateSpaceMapping::Transform);
    assert_eq!(cache.compute_to_scratch(node, &corners), VertRange { offset: 4, count: 4 });
    let mut broken = corners;
    broken.top_right = None;
    assert_eq!(cache.compute_to_scratch(node, &broken), VertRange::invalid());
    // The failed rectangle left nothing behind.
    assert_eq!(cache.compute_to_scratch(node, &corners), VertRange { offset: 8, count: 4 });

    // Axis-aligned mappings read the two extreme corners only.
    cache.set_relative_transform(node, CoordinateSpaceMapping::ScaleOffset { reflection: false });
    assert_eq!(cache.compute_to_scratch(node, &broken), VertRange { offset: 12, count: 2 });
    broken.bottom_right = None;
    assert_eq!(cache.compute_to_scratch(node, &broken), VertRange::invalid());

    let mut verts = Vec::new();
    assert_eq!(
        cache.push_verts(VertRange { offset: 4, count: 4 }, &mut verts),
        VertRange { offset: 0, count: 8 }
    );
    assert_eq!(verts, vec![1, 2, 30, 2, 1, 40, 30, 40]);

    cache.clear_scratch();
    assert_eq!(cache.compute_to_scratch(node, &corners), VertRange { offset: 0, count: 2 });
}

#[test]
fn test_push_verts() {
    let mut cache = CornersCache::new();
    let node = SpatialNodeIndex(1);
    cache.set_relative_transform(node, CoordinateSpaceMapping::Local);
    let first = cache.compute_to_scratch(node, &ProjectedCorners::axis_aligned(p(-8, 2), p(30, 40)));
    let second = cache.compute_to_scratch(node, &ProjectedCorners::axis_aligned(p(5, 6), p(7, 8)));

    let mut verts = vec![99];
    assert_eq!(cache.push_verts(second, &mut verts), VertRange { offset: 1, count: 4 });
    assert_eq!(cache.push_verts(first, &mut verts), VertRange { offset: 5, count: 4 });
    assert_eq!(verts, vec![99, 5, 6, 7, 8, -8, 2, 30, 40]);

    // A window that is invalid, of a wrong size or outside the scratch.
    let before = verts.clone();
    assert_eq!(cache.push_verts(VertRange::invalid(), &mut verts), VertRange::invalid());
    assert_eq!(
        cache.push_verts(VertRange { offset: 0, count: 3 }, &mut verts),
        VertRange::invalid()
    );
    assert_eq!(
        cache.push_verts(VertRange { offset: 3, count: 2 }, &mut verts),
        VertRange::invalid()
    );
    assert_eq!(
        cache.push_verts(VertRange { offset: u32::MAX, count: 2 }, &mut verts),
        VertRange::invalid()
    );
    assert_eq!(verts, before);
}

#[test]
fn test_push_verts_clamped() {
    let mut cache = CornersCache::new();
    let node = SpatialNodeIndex(1);
    cache.set_relative_transform(node, CoordinateSpaceMapping::Local);
    let range = cache.compute_to_scratch(node, &ProjectedCorners::axis_aligned(p(-8, 2), p(30, 40)));
    let tile = Box2D::from_coords(0, 10, 20, 35);
    let mut verts = Vec::new();
    assert_eq!(
        cache.push_verts_clamped(range, &tile, &mut verts),
        VertRange { offset: 0, count: 4 }
    );
    assert_eq!(verts, vec![0, 10, 20, 35]);
    assert_eq!(
        cache.push_verts_clamped(VertRange::invalid(), &tile, &mut verts),
        VertRange::invalid()
    );
    assert_eq!(verts, vec![0, 10, 20, 35]);
}

#[test]
fn test_keys() {
    assert_eq!(ImageKey(IdNamespace(1), 2).key(), 0x1_0000_0002);
    assert_eq!(ImageKey(IdNamespace(u32::MAX), u32::MAX).key(), u64::MAX);
    assert_eq!(PropertyBindingId { namespace: IdNamespace(0), uid: 7 }.key(), 7);
    assert_eq!(PropertyBindingId { namespace: IdNamespace(7), uid: 0 }.key(), 7 << 32);
    let key = PrimitiveComparisonKey {
        prev_index: PrimitiveDependencyIndex(3),
        curr_index: PrimitiveDependencyIndex(4),
    };
    assert_eq!(key.key(), (3 << 32) + 4);
    assert_eq!(ItemUid::new(77).get_uid(), 77);
}

#[test]
fn test_lists_keep_their_items_in_order() {
    let mut images = ImageList::new();
    assert!(images.as_slice().is_empty());
    for i in 0..20 {
        images.push(ImageDependency {
            key: ImageKey(IdNamespace(0), i),
            generation: ImageGeneration(i + 1),
        });
    }
    assert_eq!(images.as_slice().len(), 20);
    assert_eq!(images.as_slice()[13].key, ImageKey(IdNamespace(0), 13));
    assert_eq!(images.as_slice()[19].generation, ImageGeneration(20));

    let mut opacities = OpacityBindingList::new();
    assert!(opacities.as_slice().is_empty());
    opacities.push(Binding::Value(5));
    opacities.push(Binding::Binding(PropertyBindingId { namespace: IdNamespace(0), uid: 1 }));
    assert_eq!(opacities.as_slice().len(), 2);
    assert_eq!(opacities.as_slice()[0], Binding::Value(5));

    let mut clips = ClipList::new();
    assert!(clips.as_slice().is_empty());
    for i in 0..6 {
        clips.push(ItemUid::new(i), VertRange { offset: i as u32, count: 2 });
    }
    assert_eq!(clips.as_slice().len(), 6);
    assert_eq!(clips.as_slice()[5], (ItemUid::new(5), VertRange { offset: 5, count: 2 }));
}

#[test]
fn test_reason_of_a_result() {
    assert_eq!(PrimitiveCompareResult::Equal.reason(), None);
    assert_eq!(PrimitiveCompareResult::Descriptor.reason(), Some(InvalidationReason::Descriptor));
    assert_eq!(PrimitiveCompareResult::Clip.reason(), Some(InvalidationReason::Clip));
    assert_eq!(PrimitiveCompareResult::Image.reason(), Some(InvalidationReason::Image));
    assert_eq!(
        PrimitiveCompareResult::OpacityBinding.reason(),
        Some(InvalidationReason::OpacityBinding)
    );
    assert_eq!(
        PrimitiveCompareResult::ColorBinding.reason(),
        Some(InvalidationReason::ColorBinding)
    );
}

#[test]
fn test_binding_from_the_display_list() {
    let id = PropertyBindingId { namespace: IdNamespace(2), uid: 9 };
    assert_eq!(Binding::from(PropertyBinding::Value(5u32)), Binding::Value(5u32));
    assert_eq!(
        Binding::from(PropertyBinding::Binding(PropertyBindingKey { id }, 7u32)),
        Binding::Binding(id)
    );
    let converted: Binding<u32> = PropertyBinding::Value(1u32).into();
    assert_eq!(converted, Binding::Value(1));
    assert_eq!(Binding::<u32>::default(), Binding::Value(0));
    assert_eq!(Binding::<bool>::default(), Binding::Value(false));
}

#[test]
fn test_the_invalid_image_dependency() {
    let invalid = ImageDependency::invalid();
    assert_eq!(invalid.key, ImageKey(IdNamespace(0), 0));
    assert_eq!(invalid.key, ImageKey::dummy());
    assert_eq!(invalid.generation, ImageGeneration(u32::MAX));
    assert_eq!(invalid.generation, ImageGeneration::invalid());
}

#[test]
fn test_plain_values() {
    assert_ne!(Operator::And, Operator::Or);
    assert_ne!(BoolValue::False, BoolValue::True);
    let forms = [
        NormalizationForm::NFC,
        NormalizationForm::NFKC,
        NormalizationForm::NFD,
        NormalizationForm::NFKD,
    ];
    for (i, a) in forms.iter().enumerate() {
        for (j, b) in forms.iter().enumerate() {
            assert_eq!(a == b, i == j);
        }
    }
}
