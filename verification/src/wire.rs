//! Integers on the wire, and the byte buffers that carry them.
//!
//! The buffers are those of the `bytes` crate. What they do is not verified
//! here: the contracts of the functions of this file that are marked
//! `external_body` state what is relied on.

use vstd::prelude::*;
use vstd::bytes::{
    lemma_auto_spec_u32_to_from_le_bytes, lemma_auto_spec_u64_to_from_le_bytes,
    spec_u32_from_le_bytes, spec_u32_to_le_bytes, spec_u64_from_le_bytes, spec_u64_to_le_bytes,
};
use vstd::layout::size_of;
use bytes::{Buf, BufMut, Bytes, BytesMut, TryGetError};

verus! {

#[verifier::external_type_specification]
#[verifier::external_body]
pub struct ExBytes(Bytes);

#[verifier::external_type_specification]
#[verifier::external_body]
pub struct ExBytesMut(BytesMut);

#[verifier::external_type_specification]
#[verifier::external_body]
pub struct ExTryGetError(TryGetError);

/// The bytes of a buffer that were not read yet.
pub uninterp spec fn unread(buffer: Bytes) -> Seq<u8>;

/// The bytes that were written to a buffer.
pub uninterp spec fn written(buffer: BytesMut) -> Seq<u8>;

/// `Bytes::from`: a buffer that holds the bytes of the vector, none of them
/// read.
#[verifier::external_body]
pub(crate) fn bytes_from_vec(data: Vec<u8>) -> (buffer: Bytes)
    ensures
        unread(buffer) == data@,
{
    Bytes::from(data)
}

/// `BytesMut::with_capacity`: a buffer to which nothing was written.
#[verifier::external_body]
pub(crate) fn bytes_mut_with_capacity(capacity: usize) -> (buffer: BytesMut)
    requires
        capacity <= isize::MAX,
    ensures
        written(buffer) == Seq::<u8>::empty(),
{
    BytesMut::with_capacity(capacity)
}

/// `BufMut::put_u8` on a `BytesMut`: the byte is written behind what was
/// written before.
#[verifier::external_body]
pub(crate) fn put_u8(buffer: &mut BytesMut, n: u8)
    ensures
        written(*final(buffer)) == written(*old(buffer)).push(n),
{
    buffer.put_u8(n)
}

/// `BytesMut::freeze`: what was written, to be read.
#[verifier::external_body]
pub(crate) fn freeze(buffer: BytesMut) -> (frozen: Bytes)
    ensures
        unread(frozen) == written(buffer),
{
    buffer.freeze()
}

/// `Buf::try_get_u8` on a `Bytes`: the first unread byte, which is then
/// read; an error, with nothing read, where no byte is left.
#[verifier::external_body]
pub(crate) fn try_get_u8(buffer: &mut Bytes) -> (r: Result<u8, TryGetError>)
    ensures
        match r {
            Ok(n) => {
                &&& unread(*old(buffer)).len() >= 1
                &&& n == unread(*old(buffer))[0]
                &&& unread(*final(buffer)) == unread(*old(buffer)).skip(1)
            },
            Err(_) => {
                &&& unread(*old(buffer)).len() == 0
                &&& unread(*final(buffer)) == unread(*old(buffer))
            },
        },
{
    buffer.try_get_u8()
}

/// `u16::to_ne_bytes`: the two bytes of a number in the order of the
/// machine.
#[verifier::external_body]
fn native_bytes(n: u16) -> (r: [u8; 2]) {
    n.to_ne_bytes()
}

/// The order in which the bytes of an integer stand on the wire.
#[derive(Clone, Copy, Debug, PartialEq, Eq, Structural)]
pub enum ByteOrder {
    /// The least significant byte first.
    LittleEndian,
    /// The most significant byte first.
    BigEndian,
}

/// The byte order of the machine that the process runs on. Messages do not
/// leave the machine, and are written and read in its order.
pub fn native_byte_order() -> ByteOrder {
    byte_order_of_one(native_bytes(1))
}

/// The byte order in which two bytes are the number 1: the order with the
/// least significant byte first where the first byte is 1, else the other.
pub open spec fn spec_byte_order_of_one(one: Seq<u8>) -> ByteOrder {
    if one[0] == 1 {
        ByteOrder::LittleEndian
    } else {
        ByteOrder::BigEndian
    }
}

/// The byte order that a machine has, from the two bytes that the number 1
/// has in its memory.
pub fn byte_order_of_one(one: [u8; 2]) -> (order: ByteOrder)
    ensures
        order == spec_byte_order_of_one(one@),
        one@ == u16_bytes(1, ByteOrder::LittleEndian) ==> order == ByteOrder::LittleEndian,
        one@ == u16_bytes(1, ByteOrder::BigEndian) ==> order == ByteOrder::BigEndian,
{
    if one[0] == 1 {
        ByteOrder::LittleEndian
    } else {
        ByteOrder::BigEndian
    }
}

/// The two bytes of a 16-bit number.
pub open spec fn u16_bytes(v: u16, order: ByteOrder) -> Seq<u8> {
    let low = (v % 256) as u8;
    let high = (v / 256) as u8;
    match order {
        ByteOrder::LittleEndian => seq![low, high],
        ByteOrder::BigEndian => seq![high, low],
    }
}

/// The number of bytes of a `usize`: 4 or 8.
pub open spec fn word_len() -> nat {
    size_of::<usize>()
}

/// Four or eight bytes in the given order, from the least significant byte
/// first.
pub open spec fn ordered(le: Seq<u8>, order: ByteOrder) -> Seq<u8> {
    match order {
        ByteOrder::LittleEndian => le,
        ByteOrder::BigEndian => le.reverse(),
    }
}

/// The four bytes of a 32-bit number.
pub open spec fn u32_bytes(v: u32, order: ByteOrder) -> Seq<u8> {
    ordered(spec_u32_to_le_bytes(v), order)
}

/// The number that four bytes stand for.
pub open spec fn u32_of(bytes: Seq<u8>, order: ByteOrder) -> u32 {
    spec_u32_from_le_bytes(ordered(bytes, order))
}

/// The eight bytes of a 64-bit number.
pub open spec fn u64_bytes(v: u64, order: ByteOrder) -> Seq<u8> {
    ordered(spec_u64_to_le_bytes(v), order)
}

/// The number that eight bytes stand for.
pub open spec fn u64_of(bytes: Seq<u8>, order: ByteOrder) -> u64 {
    spec_u64_from_le_bytes(ordered(bytes, order))
}

/// The four bytes of a signed 32-bit number, in two's complement.
pub open spec fn i32_bytes(v: i32, order: ByteOrder) -> Seq<u8> {
    u32_bytes(v as u32, order)
}

/// The signed number that four bytes stand for.
pub open spec fn i32_of(bytes: Seq<u8>, order: ByteOrder) -> i32 {
    u32_of(bytes, order) as i32
}

/// The bytes of a `usize`: as many as the machine has for it.
pub open spec fn usize_bytes(v: usize, order: ByteOrder) -> Seq<u8> {
    if word_len() == 8 {
        u64_bytes(v as u64, order)
    } else {
        u32_bytes(v as u32, order)
    }
}

/// The `usize` that the bytes of one stand for.
pub open spec fn usize_of(bytes: Seq<u8>, order: ByteOrder) -> usize {
    if word_len() == 8 {
        u64_of(bytes, order) as usize
    } else {
        u32_of(bytes, order) as usize
    }
}

/// Reading what was written gives the number back, in either order.
pub proof fn lemma_int_round_trip(a: u32, b: u64, c: i32, d: usize, order: ByteOrder)
    ensures
        u32_bytes(a, order).len() == 4,
        u32_of(u32_bytes(a, order), order) == a,
        u64_bytes(b, order).len() == 8,
        u64_of(u64_bytes(b, order), order) == b,
        i32_bytes(c, order).len() == 4,
        i32_of(i32_bytes(c, order), order) == c,
        usize_bytes(d, order).len() == word_len(),
        usize_of(usize_bytes(d, order), order) == d,
        word_len() == 4 || word_len() == 8,
{
    lemma_auto_spec_u32_to_from_le_bytes();
    lemma_auto_spec_u64_to_from_le_bytes();
    broadcast use vstd::layout::layout_of_primitives;
    assert(spec_u32_to_le_bytes(a).reverse().reverse() =~= spec_u32_to_le_bytes(a));
    assert(spec_u64_to_le_bytes(b).reverse().reverse() =~= spec_u64_to_le_bytes(b));
    assert(spec_u32_to_le_bytes(c as u32).reverse().reverse() =~= spec_u32_to_le_bytes(c as u32));
    assert((c as u32) as i32 == c) by (bit_vector);
    assert(usize::BITS == 32 || usize::BITS == 64);
    if word_len() == 8 {
        assert(spec_u64_to_le_bytes(d as u64).reverse().reverse() =~= spec_u64_to_le_bytes(
            d as u64,
        ));
        assert((d as u64) as usize == d);
    } else {
        assert(spec_u32_to_le_bytes(d as u32).reverse().reverse() =~= spec_u32_to_le_bytes(
            d as u32,
        ));
        assert((d as u32) as usize == d);
    }
}

/// The unread bytes lose their first `n`.
pub open spec fn taken(before: Seq<u8>, after: Seq<u8>, n: nat) -> bool {
    before.len() >= n && after == before.skip(n as int)
}

/// Fewer than `n` bytes are unread, and they stay so.
pub open spec fn refused(before: Seq<u8>, after: Seq<u8>, n: nat) -> bool {
    before.len() < n && after == before
}

/// `BufMut::put_i32_le` on a `BytesMut`: the four bytes of the number, the
/// least significant first, are written behind what was written before.
#[verifier::external_body]
pub(crate) fn put_i32_le(buffer: &mut BytesMut, n: i32)
    ensures
        written(*final(buffer)) == written(*old(buffer)) + i32_bytes(n, ByteOrder::LittleEndian),
{
    buffer.put_i32_le(n)
}

/// `BufMut::put_i32` on a `BytesMut`: the four bytes of the number, the
/// most significant first, are written behind what was written before.
#[verifier::external_body]
pub(crate) fn put_i32_be(buffer: &mut BytesMut, n: i32)
    ensures
        written(*final(buffer)) == written(*old(buffer)) + i32_bytes(n, ByteOrder::BigEndian),
{
    buffer.put_i32(n)
}

/// `BufMut::put_i32_ne` on a `BytesMut`: the four bytes of the number are
/// written behind what was written before, in the order of the machine,
/// which is one of the two.
#[verifier::external_body]
pub(crate) fn put_i32_ne(buffer: &mut BytesMut, n: i32)
    ensures
        written(*final(buffer)) == written(*old(buffer)) + i32_bytes(n, ByteOrder::LittleEndian)
            || written(*final(buffer)) == written(*old(buffer)) + i32_bytes(
            n,
            ByteOrder::BigEndian,
        ),
{
    buffer.put_i32_ne(n)
}

/// `BufMut::put_u32_le` on a `BytesMut`: as `put_i32_le`, for an unsigned
/// number.
#[verifier::external_body]
pub(crate) fn put_u32_le(buffer: &mut BytesMut, n: u32)
    ensures
        written(*final(buffer)) == written(*old(buffer)) + u32_bytes(n, ByteOrder::LittleEndian),
{
    buffer.put_u32_le(n)
}

/// `BufMut::put_u32` on a `BytesMut`: as `put_i32`, for an unsigned number.
#[verifier::external_body]
pub(crate) fn put_u32_be(buffer: &mut BytesMut, n: u32)
    ensures
        written(*final(buffer)) == written(*old(buffer)) + u32_bytes(n, ByteOrder::BigEndian),
{
    buffer.put_u32(n)
}

/// `BufMut::put_u32_ne` on a `BytesMut`: as `put_i32_ne`, for an unsigned
/// number.
#[verifier::external_body]
pub(crate) fn put_u32_ne(buffer: &mut BytesMut, n: u32)
    ensures
        written(*final(buffer)) == written(*old(buffer)) + u32_bytes(n, ByteOrder::LittleEndian)
            || written(*final(buffer)) == written(*old(buffer)) + u32_bytes(
            n,
            ByteOrder::BigEndian,
        ),
{
    buffer.put_u32_ne(n)
}

/// `BufMut::put_u64_le` on a `BytesMut`: the eight bytes of the number, the
/// least significant first, are written behind what was written before.
#[verifier::external_body]
pub(crate) fn put_u64_le(buffer: &mut BytesMut, n: u64)
    ensures
        written(*final(buffer)) == written(*old(buffer)) + u64_bytes(n, ByteOrder::LittleEndian),
{
    buffer.put_u64_le(n)
}

/// `BufMut::put_u64` on a `BytesMut`: the eight bytes of the number, the
/// most significant first, are written behind what was written before.
#[verifier::external_body]
pub(crate) fn put_u64_be(buffer: &mut BytesMut, n: u64)
    ensures
        written(*final(buffer)) == written(*old(buffer)) + u64_bytes(n, ByteOrder::BigEndian),
{
    buffer.put_u64(n)
}

/// `BufMut::put_u64_ne` on a `BytesMut`: the eight bytes of the number are
/// written behind what was written before, in the order of the machine,
/// which is one of the two.
#[verifier::external_body]
pub(crate) fn put_u64_ne(buffer: &mut BytesMut, n: u64)
    ensures
        written(*final(buffer)) == written(*old(buffer)) + u64_bytes(n, ByteOrder::LittleEndian)
            || written(*final(buffer)) == written(*old(buffer)) + u64_bytes(
            n,
            ByteOrder::BigEndian,
        ),
{
    buffer.put_u64_ne(n)
}

/// `Buf::try_get_i32_le` on a `Bytes`: the number that the first four unread
/// bytes stand for, the least significant first, and they are read; an
/// error, with nothing read, where fewer are left.
#[verifier::external_body]
pub(crate) fn try_get_i32_le(buffer: &mut Bytes) -> (r: Result<i32, TryGetError>)
    ensures
        match r {
            Ok(v) => taken(unread(*old(buffer)), unread(*final(buffer)), 4) && v == i32_of(
                unread(*old(buffer)).subrange(0, 4),
                ByteOrder::LittleEndian,
            ),
            Err(_) => refused(unread(*old(buffer)), unread(*final(buffer)), 4),
        },
{
    buffer.try_get_i32_le()
}

/// `Buf::try_get_i32` on a `Bytes`: as `try_get_i32_le`, the most
/// significant byte first.
#[verifier::external_body]
pub(crate) fn try_get_i32_be(buffer: &mut Bytes) -> (r: Result<i32, TryGetError>)
    ensures
        match r {
            Ok(v) => taken(unread(*old(buffer)), unread(*final(buffer)), 4) && v == i32_of(
                unread(*old(buffer)).subrange(0, 4),
                ByteOrder::BigEndian,
            ),
            Err(_) => refused(unread(*old(buffer)), unread(*final(buffer)), 4),
        },
{
    buffer.try_get_i32()
}

/// `Buf::try_get_i32_ne` on a `Bytes`: as `try_get_i32_le`, in the order of
/// the machine, which is one of the two.
#[verifier::external_body]
pub(crate) fn try_get_i32_ne(buffer: &mut Bytes) -> (r: Result<i32, TryGetError>)
    ensures
        match r {
            Ok(v) => taken(unread(*old(buffer)), unread(*final(buffer)), 4) && (v == i32_of(
                unread(*old(buffer)).subrange(0, 4),
                ByteOrder::LittleEndian,
            ) || v == i32_of(unread(*old(buffer)).subrange(0, 4), ByteOrder::BigEndian)),
            Err(_) => refused(unread(*old(buffer)), unread(*final(buffer)), 4),
        },
{
    buffer.try_get_i32_ne()
}

/// `Buf::try_get_u32_le` on a `Bytes`: as `try_get_i32_le`, for an unsigned
/// number.
#[verifier::external_body]
pub(crate) fn try_get_u32_le(buffer: &mut Bytes) -> (r: Result<u32, TryGetError>)
    ensures
        match r {
            Ok(v) => taken(unread(*old(buffer)), unread(*final(buffer)), 4) && v == u32_of(
                unread(*old(buffer)).subrange(0, 4),
                ByteOrder::LittleEndian,
            ),
            Err(_) => refused(unread(*old(buffer)), unread(*final(buffer)), 4),
        },
{
    buffer.try_get_u32_le()
}

/// `Buf::try_get_u32` on a `Bytes`: as `try_get_i32`, for an unsigned
/// number.
#[verifier::external_body]
pub(crate) fn try_get_u32_be(buffer: &mut Bytes) -> (r: Result<u32, TryGetError>)
    ensures
        match r {
            Ok(v) => taken(unread(*old(buffer)), unread(*final(buffer)), 4) && v == u32_of(
                unread(*old(buffer)).subrange(0, 4),
                ByteOrder::BigEndian,
            ),
            Err(_) => refused(unread(*old(buffer)), unread(*final(buffer)), 4),
        },
{
    buffer.try_get_u32()
}

/// `Buf::try_get_u32_ne` on a `Bytes`: as `try_get_i32_ne`, for an unsigned
/// number.
#[verifier::external_body]
pub(crate) fn try_get_u32_ne(buffer: &mut Bytes) -> (r: Result<u32, TryGetError>)
    ensures
        match r {
            Ok(v) => taken(unread(*old(buffer)), unread(*final(buffer)), 4) && (v == u32_of(
                unread(*old(buffer)).subrange(0, 4),
                ByteOrder::LittleEndian,
            ) || v == u32_of(unread(*old(buffer)).subrange(0, 4), ByteOrder::BigEndian)),
            Err(_) => refused(unread(*old(buffer)), unread(*final(buffer)), 4),
        },
{
    buffer.try_get_u32_ne()
}

/// `Buf::try_get_u64_le` on a `Bytes`: the number that the first eight
/// unread bytes stand for, the least significant first, and they are read;
/// an error, with nothing read, where fewer are left.
#[verifier::external_body]
pub(crate) fn try_get_u64_le(buffer: &mut Bytes) -> (r: Result<u64, TryGetError>)
    ensures
        match r {
            Ok(v) => taken(unread(*old(buffer)), unread(*final(buffer)), 8) && v == u64_of(
                unread(*old(buffer)).subrange(0, 8),
                ByteOrder::LittleEndian,
            ),
            Err(_) => refused(unread(*old(buffer)), unread(*final(buffer)), 8),
        },
{
    buffer.try_get_u64_le()
}

/// `Buf::try_get_u64` on a `Bytes`: as `try_get_u64_le`, the most
/// significant byte first.
#[verifier::external_body]
pub(crate) fn try_get_u64_be(buffer: &mut Bytes) -> (r: Result<u64, TryGetError>)
    ensures
        match r {
            Ok(v) => taken(unread(*old(buffer)), unread(*final(buffer)), 8) && v == u64_of(
                unread(*old(buffer)).subrange(0, 8),
                ByteOrder::BigEndian,
            ),
            Err(_) => refused(unread(*old(buffer)), unread(*final(buffer)), 8),
        },
{
    buffer.try_get_u64()
}

/// `Buf::try_get_u64_ne` on a `Bytes`: as `try_get_u64_le`, in the order of
/// the machine, which is one of the two.
#[verifier::external_body]
pub(crate) fn try_get_u64_ne(buffer: &mut Bytes) -> (r: Result<u64, TryGetError>)
    ensures
        match r {
            Ok(v) => taken(unread(*old(buffer)), unread(*final(buffer)), 8) && (v == u64_of(
                unread(*old(buffer)).subrange(0, 8),
                ByteOrder::LittleEndian,
            ) || v == u64_of(unread(*old(buffer)).subrange(0, 8), ByteOrder::BigEndian)),
            Err(_) => refused(unread(*old(buffer)), unread(*final(buffer)), 8),
        },
{
    buffer.try_get_u64_ne()
}

/// Writes a 32-bit number in the given byte order.
pub fn put_u32(buffer: &mut BytesMut, v: u32, order: ByteOrder)
    ensures
        written(*final(buffer)) == written(*old(buffer)) + u32_bytes(v, order),
{
    match order {
        ByteOrder::LittleEndian => put_u32_le(buffer, v),
        ByteOrder::BigEndian => put_u32_be(buffer, v),
    }
}

/// Writes a 64-bit number in the given byte order.
pub fn put_u64(buffer: &mut BytesMut, v: u64, order: ByteOrder)
    ensures
        written(*final(buffer)) == written(*old(buffer)) + u64_bytes(v, order),
{
    match order {
        ByteOrder::LittleEndian => put_u64_le(buffer, v),
        ByteOrder::BigEndian => put_u64_be(buffer, v),
    }
}

/// Writes a signed 32-bit number in the given byte order.
pub fn put_i32(buffer: &mut BytesMut, v: i32, order: ByteOrder)
    ensures
        written(*final(buffer)) == written(*old(buffer)) + i32_bytes(v, order),
{
    match order {
        ByteOrder::LittleEndian => put_i32_le(buffer, v),
        ByteOrder::BigEndian => put_i32_be(buffer, v),
    }
}

/// Writes a `usize` in the given byte order, in as many bytes as the machine
/// has for it.
pub fn put_usize(buffer: &mut BytesMut, v: usize, order: ByteOrder)
    ensures
        written(*final(buffer)) == written(*old(buffer)) + usize_bytes(v, order),
{
    if core::mem::size_of::<usize>() == 8 {
        put_u64(buffer, v as u64, order);
    } else {
        put_u32(buffer, v as u32, order);
    }
}

/// Writes a `usize` in the byte order of the machine, which is one of the
/// two, in as many bytes as the machine has for it.
pub fn put_usize_ne(buffer: &mut BytesMut, v: usize)
    ensures
        written(*final(buffer)) == written(*old(buffer)) + usize_bytes(v, ByteOrder::LittleEndian)
            || written(*final(buffer)) == written(*old(buffer)) + usize_bytes(
            v,
            ByteOrder::BigEndian,
        ),
{
    if core::mem::size_of::<usize>() == 8 {
        put_u64_ne(buffer, v as u64);
    } else {
        put_u32_ne(buffer, v as u32);
    }
}

/// Reads a 32-bit number in the given byte order: `None`, with nothing
/// read, where fewer than four bytes are left.
pub fn try_get_u32(buffer: &mut Bytes, order: ByteOrder) -> (r: Option<u32>)
    ensures
        match r {
            Some(v) => taken(unread(*old(buffer)), unread(*final(buffer)), 4) && v == u32_of(
                unread(*old(buffer)).subrange(0, 4),
                order,
            ),
            None => refused(unread(*old(buffer)), unread(*final(buffer)), 4),
        },
{
    let got = match order {
        ByteOrder::LittleEndian => try_get_u32_le(buffer),
        ByteOrder::BigEndian => try_get_u32_be(buffer),
    };
    match got {
        Ok(v) => Some(v),
        Err(_) => None,
    }
}

/// Reads a 64-bit number in the given byte order: `None`, with nothing
/// read, where fewer than eight bytes are left.
pub fn try_get_u64(buffer: &mut Bytes, order: ByteOrder) -> (r: Option<u64>)
    ensures
        match r {
            Some(v) => taken(unread(*old(buffer)), unread(*final(buffer)), 8) && v == u64_of(
                unread(*old(buffer)).subrange(0, 8),
                order,
            ),
            None => refused(unread(*old(buffer)), unread(*final(buffer)), 8),
        },
{
    let got = match order {
        ByteOrder::LittleEndian => try_get_u64_le(buffer),
        ByteOrder::BigEndian => try_get_u64_be(buffer),
    };
    match got {
        Ok(v) => Some(v),
        Err(_) => None,
    }
}

/// Reads a signed 32-bit number in the given byte order: `None`, with
/// nothing read, where fewer than four bytes are left.
pub fn try_get_i32(buffer: &mut Bytes, order: ByteOrder) -> (r: Option<i32>)
    ensures
        match r {
            Some(v) => taken(unread(*old(buffer)), unread(*final(buffer)), 4) && v == i32_of(
                unread(*old(buffer)).subrange(0, 4),
                order,
            ),
            None => refused(unread(*old(buffer)), unread(*final(buffer)), 4),
        },
{
    let got = match order {
        ByteOrder::LittleEndian => try_get_i32_le(buffer),
        ByteOrder::BigEndian => try_get_i32_be(buffer),
    };
    match got {
        Ok(v) => Some(v),
        Err(_) => None,
    }
}

/// Reads a `usize` in the given byte order: `None`, with nothing read,
/// where fewer bytes are left than the machine has for one.
pub fn try_get_usize(buffer: &mut Bytes, order: ByteOrder) -> (r: Option<usize>)
    ensures
        match r {
            Some(v) => taken(unread(*old(buffer)), unread(*final(buffer)), word_len()) && v
                == usize_of(unread(*old(buffer)).subrange(0, word_len() as int), order),
            None => refused(unread(*old(buffer)), unread(*final(buffer)), word_len()),
        },
{
    proof {
        lemma_int_round_trip(0, 0, 0, 0, order);
    }
    if core::mem::size_of::<usize>() == 8 {
        match try_get_u64(buffer, order) {
            Some(v) => Some(v as usize),
            None => None,
        }
    } else {
        match try_get_u32(buffer, order) {
            Some(v) => Some(v as usize),
            None => None,
        }
    }
}

/// Reads a `usize` in the byte order of the machine, which is one of the
/// two: `None`, with nothing read, where fewer bytes are left than the
/// machine has for one.
pub fn try_get_usize_ne(buffer: &mut Bytes) -> (r: Option<usize>)
    ensures
        match r {
            Some(v) => taken(unread(*old(buffer)), unread(*final(buffer)), word_len()) && (v
                == usize_of(
                unread(*old(buffer)).subrange(0, word_len() as int),
                ByteOrder::LittleEndian,
            ) || v == usize_of(
                unread(*old(buffer)).subrange(0, word_len() as int),
                ByteOrder::BigEndian,
            )),
            None => refused(unread(*old(buffer)), unread(*final(buffer)), word_len()),
        },
{
    proof {
        lemma_int_round_trip(0, 0, 0, 0, ByteOrder::LittleEndian);
    }
    if core::mem::size_of::<usize>() == 8 {
        match try_get_u64_ne(buffer) {
            Ok(v) => Some(v as usize),
            Err(_) => None,
        }
    } else {
        match try_get_u32_ne(buffer) {
            Ok(v) => Some(v as usize),
            Err(_) => None,
        }
    }
}

} // verus!
