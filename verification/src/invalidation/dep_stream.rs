//! The dependency stream: the dynamic dependencies of the primitives of one
//! tile, packed into bytes.
//!
//! A record is one tag byte followed by a payload whose length the tag fixes.
//! All integers are little-endian. The stream does not say where the records
//! of one primitive end: the primitive's descriptor holds the offset of its
//! first record and the number of its records.
//!
//! | tag | dependency      | payload                                         |
//! |-----|-----------------|-------------------------------------------------|
//! | 0   | opacity binding | kind, then 8 bytes                              |
//! | 1   | colour binding  | kind, then 8 bytes                              |
//! | 2   | image           | name space, key, generation: 4 bytes each       |
//! | 3   | clip            | uid: 8 bytes; offset, count: 4 bytes each       |
//!
//! The kind of a binding is 0 for a constant (the value in the first 4 bytes,
//! then 4 zero bytes) and 1 for an animated property (name space and uid, 4
//! bytes each). Only these bytes are a record: the decoder accepts nothing
//! else, so two records are equal exactly when their bytes are.

use vstd::prelude::*;
use vstd::bytes::{
    spec_u32_from_le_bytes, spec_u32_to_le_bytes, spec_u64_from_le_bytes, spec_u64_to_le_bytes,
    u32_from_le_bytes, u32_to_le_bytes, u64_from_le_bytes, u64_to_le_bytes,
    lemma_auto_spec_u32_to_from_le_bytes, lemma_auto_spec_u64_to_from_le_bytes,
};
use vstd::slice::slice_subrange;
use crate::ids::{ColorU, IdNamespace, ImageGeneration, ImageKey, ItemUid, PropertyBindingId};
use crate::invalidation::compare::{Binding, ImageDependency, PrimitiveDependency};
use crate::invalidation::vert_buffer::VertRange;

verus! {

pub const TAG_OPACITY_BINDING: u8 = 0;

pub const TAG_COLOR_BINDING: u8 = 1;

pub const TAG_IMAGE: u8 = 2;

pub const TAG_CLIP: u8 = 3;

/// The longest record, in bytes.
pub const MAX_RECORD_LEN: usize = 17;

/// The length of a record with the given tag, the tag byte included; 0 for a
/// byte that is no tag.
pub open spec fn record_len(tag: u8) -> nat {
    if tag == TAG_OPACITY_BINDING || tag == TAG_COLOR_BINDING {
        10
    } else if tag == TAG_IMAGE {
        13
    } else if tag == TAG_CLIP {
        17
    } else {
        0
    }
}

/// The two 32-bit halves of a binding id.
pub open spec fn encode_binding_id(id: PropertyBindingId) -> Seq<u8> {
    spec_u32_to_le_bytes(id.namespace.0) + spec_u32_to_le_bytes(id.uid)
}

/// The bytes of one dependency.
pub open spec fn encode_dep(dep: PrimitiveDependency) -> Seq<u8> {
    match dep {
        PrimitiveDependency::OpacityBinding { binding: Binding::Value(v) } => {
            seq![TAG_OPACITY_BINDING, 0u8] + spec_u32_to_le_bytes(v) + spec_u32_to_le_bytes(0)
        },
        PrimitiveDependency::OpacityBinding { binding: Binding::Binding(id) } => {
            seq![TAG_OPACITY_BINDING, 1u8] + encode_binding_id(id)
        },
        PrimitiveDependency::ColorBinding { binding: Binding::Value(c) } => {
            seq![TAG_COLOR_BINDING, 0u8, c.r, c.g, c.b, c.a] + spec_u32_to_le_bytes(0)
        },
        PrimitiveDependency::ColorBinding { binding: Binding::Binding(id) } => {
            seq![TAG_COLOR_BINDING, 1u8] + encode_binding_id(id)
        },
        PrimitiveDependency::Image { image } => {
            seq![TAG_IMAGE] + spec_u32_to_le_bytes(image.key.0.0) + spec_u32_to_le_bytes(
                image.key.1,
            ) + spec_u32_to_le_bytes(image.generation.0)
        },
        PrimitiveDependency::Clip { prim_uid, vert_range } => {
            seq![TAG_CLIP] + spec_u64_to_le_bytes(prim_uid.uid) + spec_u32_to_le_bytes(
                vert_range.offset,
            ) + spec_u32_to_le_bytes(vert_range.count)
        },
    }
}

/// The 32-bit integer at byte `at` of `s`.
pub open spec fn u32_at(s: Seq<u8>, at: int) -> u32 {
    spec_u32_from_le_bytes(s.subrange(at, at + 4))
}

/// The 64-bit integer at byte `at` of `s`.
pub open spec fn u64_at(s: Seq<u8>, at: int) -> u64 {
    spec_u64_from_le_bytes(s.subrange(at, at + 8))
}

/// The binding id in the 8 bytes from byte 2 of a binding record.
pub open spec fn decode_binding_id(s: Seq<u8>) -> PropertyBindingId {
    PropertyBindingId { namespace: IdNamespace(u32_at(s, 2)), uid: u32_at(s, 6) }
}

/// The dependency that the first bytes of `s` are the record of, with the
/// length of that record; `None` where `s` does not start with a record.
pub open spec fn decode_dep(s: Seq<u8>) -> Option<(PrimitiveDependency, nat)> {
    if s.len() == 0 || record_len(s[0]) == 0 || s.len() < record_len(s[0]) {
        None
    } else if s[0] == TAG_OPACITY_BINDING {
        if s[1] == 0 && u32_at(s, 6) == 0 {
            Some(
                (PrimitiveDependency::OpacityBinding { binding: Binding::Value(u32_at(s, 2)) }, 10),
            )
        } else if s[1] == 1 {
            Some(
                (
                    PrimitiveDependency::OpacityBinding {
                        binding: Binding::Binding(decode_binding_id(s)),
                    },
                    10,
                ),
            )
        } else {
            None
        }
    } else if s[0] == TAG_COLOR_BINDING {
        if s[1] == 0 && u32_at(s, 6) == 0 {
            Some(
                (
                    PrimitiveDependency::ColorBinding {
                        binding: Binding::Value(ColorU { r: s[2], g: s[3], b: s[4], a: s[5] }),
                    },
                    10,
                ),
            )
        } else if s[1] == 1 {
            Some(
                (
                    PrimitiveDependency::ColorBinding {
                        binding: Binding::Binding(decode_binding_id(s)),
                    },
                    10,
                ),
            )
        } else {
            None
        }
    } else if s[0] == TAG_IMAGE {
        Some(
            (
                PrimitiveDependency::Image {
                    image: ImageDependency {
                        key: ImageKey(IdNamespace(u32_at(s, 1)), u32_at(s, 5)),
                        generation: ImageGeneration(u32_at(s, 9)),
                    },
                },
                13,
            ),
        )
    } else {
        Some(
            (
                PrimitiveDependency::Clip {
                    prim_uid: ItemUid { uid: u64_at(s, 1) },
                    vert_range: VertRange { offset: u32_at(s, 9), count: u32_at(s, 13) },
                },
                17,
            ),
        )
    }
}

/// The first `n` records of `s`, with the number of bytes they take; `None`
/// where `s` does not start with `n` records.
pub open spec fn decode_records(s: Seq<u8>, n: nat) -> Option<(Seq<PrimitiveDependency>, nat)>
    decreases n,
{
    if n == 0 {
        Some((Seq::empty(), 0))
    } else {
        match decode_dep(s) {
            Some((dep, len)) => match decode_records(s.skip(len as int), (n - 1) as nat) {
                Some((rest, used)) => Some((seq![dep] + rest, len + used)),
                None => None,
            },
            None => None,
        }
    }
}

/// The bytes of a list of dependencies, one record after the other.
pub open spec fn encode_records(deps: Seq<PrimitiveDependency>) -> Seq<u8>
    decreases deps.len(),
{
    if deps.len() == 0 {
        Seq::empty()
    } else {
        encode_dep(deps[0]) + encode_records(deps.skip(1))
    }
}

/// A record has the length that its tag fixes, at most [`MAX_RECORD_LEN`],
/// and starts with its tag.
pub proof fn lemma_encode_len(dep: PrimitiveDependency)
    ensures
        encode_dep(dep).len() == record_len(encode_dep(dep)[0]),
        0 < encode_dep(dep).len() <= MAX_RECORD_LEN,
{
    lemma_auto_spec_u32_to_from_le_bytes();
    lemma_auto_spec_u64_to_from_le_bytes();
}

/// Decoding what was encoded gives the dependency back, whatever follows the
/// record.
pub proof fn lemma_decode_encode(dep: PrimitiveDependency, rest: Seq<u8>)
    ensures
        decode_dep(encode_dep(dep) + rest) == Some((dep, encode_dep(dep).len())),
{
    lemma_auto_spec_u32_to_from_le_bytes();
    lemma_auto_spec_u64_to_from_le_bytes();
    let e = encode_dep(dep);
    let s = e + rest;
    lemma_encode_len(dep);
    assert(s[0] == e[0]);
    match dep {
        PrimitiveDependency::OpacityBinding { binding: Binding::Value(v) } => {
            assert(s[1] == 0);
            assert(s.subrange(2, 6) =~= spec_u32_to_le_bytes(v));
            assert(s.subrange(6, 10) =~= spec_u32_to_le_bytes(0));
        },
        PrimitiveDependency::OpacityBinding { binding: Binding::Binding(id) } => {
            assert(s[1] == 1);
            assert(s.subrange(2, 6) =~= spec_u32_to_le_bytes(id.namespace.0));
            assert(s.subrange(6, 10) =~= spec_u32_to_le_bytes(id.uid));
        },
        PrimitiveDependency::ColorBinding { binding: Binding::Value(c) } => {
            assert(s[1] == 0);
            assert(s.subrange(6, 10) =~= spec_u32_to_le_bytes(0));
        },
        PrimitiveDependency::ColorBinding { binding: Binding::Binding(id) } => {
            assert(s[1] == 1);
            assert(s.subrange(2, 6) =~= spec_u32_to_le_bytes(id.namespace.0));
            assert(s.subrange(6, 10) =~= spec_u32_to_le_bytes(id.uid));
        },
        PrimitiveDependency::Image { image } => {
            assert(s.subrange(1, 5) =~= spec_u32_to_le_bytes(image.key.0.0));
            assert(s.subrange(5, 9) =~= spec_u32_to_le_bytes(image.key.1));
            assert(s.subrange(9, 13) =~= spec_u32_to_le_bytes(image.generation.0));
        },
        PrimitiveDependency::Clip { prim_uid, vert_range } => {
            assert(s.subrange(1, 9) =~= spec_u64_to_le_bytes(prim_uid.uid));
            assert(s.subrange(9, 13) =~= spec_u32_to_le_bytes(vert_range.offset));
            assert(s.subrange(13, 17) =~= spec_u32_to_le_bytes(vert_range.count));
        },
    }
}

/// What decodes is the encoding of what it decodes to: a record has one
/// spelling only.
pub proof fn lemma_encode_decode(s: Seq<u8>)
    requires
        decode_dep(s) is Some,
    ensures
        decode_dep(s) matches Some(d) && encode_dep(d.0) == s.subrange(0, d.1 as int),
{
    lemma_auto_spec_u32_to_from_le_bytes();
    lemma_auto_spec_u64_to_from_le_bytes();
    let (dep, len) = decode_dep(s)->0;
    let e = encode_dep(dep);
    let t = s.subrange(0, len as int);
    assert(s.subrange(1, 5).len() == 4);
    assert(s.subrange(2, 6).len() == 4);
    assert(s.subrange(5, 9).len() == 4);
    assert(s.subrange(6, 10).len() == 4);
    if s[0] == TAG_IMAGE {
        assert(s.subrange(9, 13).len() == 4);
    }
    if s[0] == TAG_CLIP {
        assert(s.subrange(1, 9).len() == 8);
        assert(s.subrange(9, 13).len() == 4);
        assert(s.subrange(13, 17).len() == 4);
    }
    assert(e.len() == len);
    assert(e =~= t);
}

/// What follows a record does not change what the record decodes to.
pub proof fn lemma_decode_dep_prefix(s: Seq<u8>, t: Seq<u8>)
    requires
        decode_dep(s) is Some,
    ensures
        decode_dep(s + t) == decode_dep(s),
{
    let u = s + t;
    assert(u[0] == s[0]);
    assert(u[1] == s[1]);
    assert(u.subrange(1, 5) =~= s.subrange(1, 5));
    assert(u.subrange(2, 6) =~= s.subrange(2, 6));
    assert(u.subrange(5, 9) =~= s.subrange(5, 9));
    assert(u.subrange(6, 10) =~= s.subrange(6, 10));
    if s[0] == TAG_COLOR_BINDING {
        assert(u[2] == s[2] && u[3] == s[3] && u[4] == s[4] && u[5] == s[5]);
    }
    if s[0] == TAG_IMAGE {
        assert(u.subrange(9, 13) =~= s.subrange(9, 13));
    }
    if s[0] == TAG_CLIP {
        assert(u.subrange(1, 9) =~= s.subrange(1, 9));
        assert(u.subrange(9, 13) =~= s.subrange(9, 13));
        assert(u.subrange(13, 17) =~= s.subrange(13, 17));
    }
}

/// What follows `n` records does not change what they decode to.
pub proof fn lemma_decode_records_prefix(s: Seq<u8>, t: Seq<u8>, n: nat)
    requires
        decode_records(s, n) is Some,
    ensures
        decode_records(s + t, n) == decode_records(s, n),
    decreases n,
{
    if n > 0 {
        lemma_decode_dep_prefix(s, t);
        let first = decode_dep(s)->0;
        let len = first.1;
        assert((s + t).skip(len as int) =~= s.skip(len as int) + t);
        lemma_decode_records_prefix(s.skip(len as int), t, (n - 1) as nat);
    }
}

/// The records of a list decode to the list, whatever follows them.
pub proof fn lemma_decode_encode_records(deps: Seq<PrimitiveDependency>, rest: Seq<u8>)
    ensures
        decode_records(encode_records(deps) + rest, deps.len()) == Some(
            (deps, encode_records(deps).len()),
        ),
    decreases deps.len(),
{
    if deps.len() > 0 {
        let head = encode_dep(deps[0]);
        let tail = encode_records(deps.skip(1));
        let s = encode_records(deps) + rest;
        assert(s =~= head + (tail + rest));
        lemma_decode_encode(deps[0], tail + rest);
        assert(s.skip(head.len() as int) =~= tail + rest);
        lemma_decode_encode_records(deps.skip(1), rest);
        assert(seq![deps[0]] + deps.skip(1) =~= deps);
    }
}

/// The records of a list with one more dependency are those of the list,
/// then that of the dependency.
pub proof fn lemma_encode_records_push(deps: Seq<PrimitiveDependency>, dep: PrimitiveDependency)
    ensures
        encode_records(deps.push(dep)) == encode_records(deps) + encode_dep(dep),
    decreases deps.len(),
{
    let all = deps.push(dep);
    if deps.len() == 0 {
        assert(all.skip(1) =~= Seq::<PrimitiveDependency>::empty());
        assert(encode_records(all.skip(1)) =~= Seq::<u8>::empty());
        assert(encode_records(all) =~= encode_dep(dep));
        assert(encode_records(deps) + encode_dep(dep) =~= encode_dep(dep));
    } else {
        assert(all.skip(1) =~= deps.skip(1).push(dep));
        lemma_encode_records_push(deps.skip(1), dep);
        assert(encode_records(all) =~= encode_records(deps) + encode_dep(dep));
    }
}

/// The record that starts at byte `at` of `s`, with its length; `None` where
/// no record starts there.
pub open spec fn decode_at(s: Seq<u8>, at: int) -> Option<(PrimitiveDependency, nat)> {
    if 0 <= at <= s.len() {
        decode_dep(s.skip(at))
    } else {
        None
    }
}

/// Appends a 32-bit integer.
fn put_u32(dst: &mut Vec<u8>, v: u32)
    ensures
        final(dst)@ == old(dst)@ + spec_u32_to_le_bytes(v),
{
    let mut bytes = u32_to_le_bytes(v);
    dst.append(&mut bytes);
}

/// Appends a 64-bit integer.
fn put_u64(dst: &mut Vec<u8>, v: u64)
    ensures
        final(dst)@ == old(dst)@ + spec_u64_to_le_bytes(v),
{
    let mut bytes = u64_to_le_bytes(v);
    dst.append(&mut bytes);
}

/// Reads the 32-bit integer at byte `at + field` of `data`.
fn get_u32(data: &[u8], at: usize, field: usize) -> (v: u32)
    requires
        at + field + 4 <= data@.len() <= usize::MAX,
    ensures
        v == u32_at(data@.skip(at as int), field as int),
{
    let bytes = slice_subrange(data, at + field, at + field + 4);
    assert(bytes@ =~= data@.skip(at as int).subrange(field as int, field + 4));
    u32_from_le_bytes(bytes)
}

/// Reads the 64-bit integer at byte `at + field` of `data`.
fn get_u64(data: &[u8], at: usize, field: usize) -> (v: u64)
    requires
        at + field + 8 <= data@.len() <= usize::MAX,
    ensures
        v == u64_at(data@.skip(at as int), field as int),
{
    let bytes = slice_subrange(data, at + field, at + field + 8);
    assert(bytes@ =~= data@.skip(at as int).subrange(field as int, field + 8));
    u64_from_le_bytes(bytes)
}

/// Appends the two halves of a binding id.
fn put_binding_id(dst: &mut Vec<u8>, id: PropertyBindingId)
    ensures
        final(dst)@ == old(dst)@ + encode_binding_id(id),
{
    put_u32(dst, id.namespace.0);
    put_u32(dst, id.uid);
    assert(dst@ =~= old(dst)@ + encode_binding_id(id));
}

/// Appends the record of `dep` to `dst`.
pub fn encode_dependency(dep: &PrimitiveDependency, dst: &mut Vec<u8>)
    ensures
        final(dst)@ == old(dst)@ + encode_dep(*dep),
        final(dst)@.len() <= old(dst)@.len() + MAX_RECORD_LEN,
{
    proof {
        lemma_encode_len(*dep);
    }
    match dep {
        PrimitiveDependency::OpacityBinding { binding } => {
            dst.push(TAG_OPACITY_BINDING);
            match binding {
                Binding::Value(v) => {
                    dst.push(0);
                    put_u32(dst, *v);
                    put_u32(dst, 0);
                },
                Binding::Binding(id) => {
                    dst.push(1);
                    put_binding_id(dst, *id);
                },
            }
        },
        PrimitiveDependency::ColorBinding { binding } => {
            dst.push(TAG_COLOR_BINDING);
            match binding {
                Binding::Value(c) => {
                    dst.push(0);
                    dst.push(c.r);
                    dst.push(c.g);
                    dst.push(c.b);
                    dst.push(c.a);
                    put_u32(dst, 0);
                },
                Binding::Binding(id) => {
                    dst.push(1);
                    put_binding_id(dst, *id);
                },
            }
        },
        PrimitiveDependency::Image { image } => {
            dst.push(TAG_IMAGE);
            put_u32(dst, image.key.0.0);
            put_u32(dst, image.key.1);
            put_u32(dst, image.generation.0);
        },
        PrimitiveDependency::Clip { prim_uid, vert_range } => {
            dst.push(TAG_CLIP);
            put_u64(dst, prim_uid.uid);
            put_u32(dst, vert_range.offset);
            put_u32(dst, vert_range.count);
        },
    }
    assert(dst@ =~= old(dst)@ + encode_dep(*dep));
}

/// Reads the binding id of the binding record at byte `at`.
fn get_binding_id(data: &[u8], at: usize) -> (id: PropertyBindingId)
    requires
        at + 10 <= data@.len() <= usize::MAX,
    ensures
        id == decode_binding_id(data@.skip(at as int)),
{
    let namespace = get_u32(data, at, 2);
    let uid = get_u32(data, at, 6);
    PropertyBindingId { namespace: IdNamespace(namespace), uid }
}

/// Decodes the record that starts at byte `at` of `data`. Returns the
/// dependency and the offset of the byte after the record, or `None` where
/// no record starts at `at`.
pub fn decode_dependency(data: &[u8], at: usize) -> (r: Option<(PrimitiveDependency, usize)>)
    ensures
        match decode_at(data@, at as int) {
            Some((dep, len)) => {
                &&& r matches Some(next)
                &&& next.0 == dep
                &&& next.1 == at + len
                &&& at + len <= data@.len()
            },
            None => r is None,
        },
{
    let total = data.len();
    if at >= total {
        return None;
    }
    let ghost s = data@.skip(at as int);
    let tag = data[at];
    assert(s[0] == tag);
    let len: usize = if tag == TAG_OPACITY_BINDING || tag == TAG_COLOR_BINDING {
        10
    } else if tag == TAG_IMAGE {
        13
    } else if tag == TAG_CLIP {
        17
    } else {
        return None;
    };
    if total - at < len {
        return None;
    }
    if tag == TAG_OPACITY_BINDING || tag == TAG_COLOR_BINDING {
        let kind = data[at + 1];
        assert(s[1] == kind);
        if kind == 1 {
            let id = get_binding_id(data, at);
            if tag == TAG_OPACITY_BINDING {
                Some(
                    (
                        PrimitiveDependency::OpacityBinding { binding: Binding::Binding(id) },
                        at + len,
                    ),
                )
            } else {
                Some(
                    (PrimitiveDependency::ColorBinding { binding: Binding::Binding(id) }, at + len),
                )
            }
        } else if kind == 0 {
            let padding = get_u32(data, at, 6);
            if padding != 0 {
                return None;
            }
            if tag == TAG_OPACITY_BINDING {
                let v = get_u32(data, at, 2);
                Some(
                    (PrimitiveDependency::OpacityBinding { binding: Binding::Value(v) }, at + len),
                )
            } else {
                let c = ColorU {
                    r: data[at + 2],
                    g: data[at + 3],
                    b: data[at + 4],
                    a: data[at + 5],
                };
                assert(s[2] == c.r && s[3] == c.g && s[4] == c.b && s[5] == c.a);
                Some((PrimitiveDependency::ColorBinding { binding: Binding::Value(c) }, at + len))
            }
        } else {
            None
        }
    } else if tag == TAG_IMAGE {
        let namespace = get_u32(data, at, 1);
        let key = get_u32(data, at, 5);
        let generation = get_u32(data, at, 9);
        Some(
            (
                PrimitiveDependency::Image {
                    image: ImageDependency {
                        key: ImageKey(IdNamespace(namespace), key),
                        generation: ImageGeneration(generation),
                    },
                },
                at + len,
            ),
        )
    } else {
        let uid = get_u64(data, at, 1);
        let offset = get_u32(data, at, 9);
        let count = get_u32(data, at, 13);
        Some(
            (
                PrimitiveDependency::Clip {
                    prim_uid: ItemUid { uid },
                    vert_range: VertRange { offset, count },
                },
                at + len,
            ),
        )
    }
}

} // verus!
