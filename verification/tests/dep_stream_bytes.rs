//! The bytes of the dependency stream.

use tile_invalidation::ids::{
    ColorU, IdNamespace, ImageGeneration, ImageKey, ItemUid, PropertyBindingId,
};
use tile_invalidation::invalidation::compare::{Binding, ImageDependency, PrimitiveDependency};
use tile_invalidation::invalidation::dep_stream::{
    decode_dependency, encode_dependency, MAX_RECORD_LEN, TAG_CLIP, TAG_COLOR_BINDING, TAG_IMAGE,
    TAG_OPACITY_BINDING,
};
use tile_invalidation::invalidation::vert_buffer::VertRange;

fn encoded(dep: &PrimitiveDependency) -> Vec<u8> {
    let mut bytes = Vec::new();
    encode_dependency(dep, &mut bytes);
    bytes
}

fn samples() -> Vec<PrimitiveDependency> {
    let id = PropertyBindingId { namespace: IdNamespace(0x0102_0304), uid: 0x0a0b_0c0d };
    vec![
        PrimitiveDependency::OpacityBinding { binding: Binding::Value(0x3f80_0000) },
        PrimitiveDependency::OpacityBinding { binding: Binding::Binding(id) },
        PrimitiveDependency::ColorBinding { binding: Binding::Value(ColorU::new(1, 2, 3, 4)) },
        PrimitiveDependency::ColorBinding { binding: Binding::Binding(id) },
        PrimitiveDependency::Image {
            image: ImageDependency {
                key: ImageKey(IdNamespace(1), 2),
                generation: ImageGeneration(3),
            },
        },
        PrimitiveDependency::Clip {
            prim_uid: ItemUid::new(0x1122_3344_5566_7788),
            vert_range: VertRange { offset: 12, count: 4 },
        },
    ]
}

#[test]
fn test_record_bytes() {
    let all = samples();
    assert_eq!(encoded(&all[0]), vec![0, 0, 0x00, 0x00, 0x80, 0x3f, 0, 0, 0, 0]);
    assert_eq!(encoded(&all[1]), vec![0, 1, 4, 3, 2, 1, 0x0d, 0x0c, 0x0b, 0x0a]);
    assert_eq!(encoded(&all[2]), vec![1, 0, 1, 2, 3, 4, 0, 0, 0, 0]);
    assert_eq!(encoded(&all[3]), vec![1, 1, 4, 3, 2, 1, 0x0d, 0x0c, 0x0b, 0x0a]);
    assert_eq!(encoded(&all[4]), vec![2, 1, 0, 0, 0, 2, 0, 0, 0, 3, 0, 0, 0]);
    assert_eq!(
        encoded(&all[5]),
        vec![3, 0x88, 0x77, 0x66, 0x55, 0x44, 0x33, 0x22, 0x11, 12, 0, 0, 0, 4, 0, 0, 0]
    );
    assert_eq!(TAG_OPACITY_BINDING, 0);
    assert_eq!(TAG_COLOR_BINDING, 1);
    assert_eq!(TAG_IMAGE, 2);
    assert_eq!(TAG_CLIP, 3);
    assert_eq!(MAX_RECORD_LEN, 17);
}

#[test]
fn test_encode_appends() {
    let mut bytes = vec![9u8, 9, 9];
    encode_dependency(&samples()[4], &mut bytes);
    assert_eq!(bytes, vec![9, 9, 9, 2, 1, 0, 0, 0, 2, 0, 0, 0, 3, 0, 0, 0]);
}

#[test]
fn test_round_trip() {
    let mut stream = vec![0xffu8; 5];
    let mut starts = Vec::new();
    for dep in samples() {
        starts.push(stream.len());
        encode_dependency(&dep, &mut stream);
    }
    stream.extend_from_slice(&[0xaa, 0xbb]);
    let all = samples();
    for (i, dep) in all.iter().enumerate() {
        let (decoded, next) = decode_dependency(&stream, starts[i]).expect("a record");
        assert_eq!(decoded, *dep);
        let end = if i + 1 < all.len() { starts[i + 1] } else { stream.len() - 2 };
        assert_eq!(next, end);
    }
}

#[test]
fn test_decode_rejects_what_is_no_record() {
    // Nothing there, or behind the end.
    assert_eq!(decode_dependency(&[], 0), None);
    assert_eq!(decode_dependency(&[2, 0, 0], 3), None);
    assert_eq!(decode_dependency(&[2, 0, 0], 4), None);
    // No such tag.
    assert_eq!(decode_dependency(&[4u8; 32], 0), None);
    assert_eq!(decode_dependency(&[255u8; 32], 0), None);
    // Cut short.
    for dep in samples() {
        let bytes = encoded(&dep);
        for len in 0..bytes.len() {
            assert_eq!(decode_dependency(&bytes[..len], 0), None);
        }
        assert!(decode_dependency(&bytes, 0).is_some());
        assert_eq!(decode_dependency(&bytes, 1).map(|r| r.1), None);
    }
    // No such kind of binding.
    assert_eq!(decode_dependency(&[0, 2, 0, 0, 0, 0, 0, 0, 0, 0], 0), None);
    assert_eq!(decode_dependency(&[1, 9, 0, 0, 0, 0, 0, 0, 0, 0], 0), None);
    // A constant with bytes behind it that are not zero.
    assert_eq!(decode_dependency(&[0, 0, 1, 0, 0, 0, 0, 0, 0, 1], 0), None);
    assert_eq!(decode_dependency(&[1, 0, 1, 2, 3, 4, 1, 0, 0, 0], 0), None);
}

#[test]
fn test_decode_at_an_offset() {
    let stream = [7u8, 2, 1, 0, 0, 0, 2, 0, 0, 0, 3, 0, 0, 0, 7];
    let (dep, next) = decode_dependency(&stream, 1).expect("a record");
    assert_eq!(dep, samples()[4]);
    assert_eq!(next, 14);
}
