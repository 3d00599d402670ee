//! The messages that a crash helper and its clients exchange.
//!
//! Every message goes out behind a header that holds its kind and the size
//! of its payload, so that the receiver can check and prepare before it
//! reads the payload.

use vstd::prelude::*;
use bytes::Bytes;
use crate::wire::{
    bytes_from_vec, bytes_mut_with_capacity, freeze, i32_bytes, i32_of, lemma_int_round_trip,
    put_i32, put_i32_ne, put_u8, put_usize, put_usize_ne, try_get_i32, try_get_i32_ne, try_get_u8,
    try_get_usize, try_get_usize_ne, unread, usize_bytes, usize_of, word_len, written, ByteOrder,
};

verus! {

/// Identity of a process.
pub type Pid = i32;

/// Identity that the browser gives to a child process.
pub type GeckoChildId = i32;

/// Why a message could not be decoded.
#[derive(Clone, Copy, Debug, PartialEq, Eq, Structural)]
pub enum MessageError {
    /// A nul terminator was found within a string.
    InteriorNul,
    /// The message contained an invalid payload.
    InvalidData,
    /// The kind of the message is invalid.
    InvalidKind,
    /// The size of the message is invalid.
    InvalidSize,
    /// Ancillary data is missing.
    MissingAncillary,
    /// A nul terminator is missing.
    MissingNul,
    /// The message is shorter than its fields.
    Truncated,
    /// The message came with ancillary data that it does not have.
    UnexpectedAncillaryData,
}

/// The kind of a message, as the first byte of the header tells it.
#[derive(Clone, Copy, Debug, PartialEq, Eq, Structural)]
pub enum Kind {
    /// Changes the folder where crash reports are generated.
    SetCrashReportPath,
    /// Requests the minidump that was generated for a process.
    TransferMinidump,
    TransferMinidumpReply,
    /// Requests the generation of a minidump of a process.
    GenerateMinidump,
    GenerateMinidumpReply,
    /// Requests a minidump from what the error reporting of Windows has
    /// gathered. The reply is empty: it tells that the crashed process can
    /// be shut down.
    WindowsErrorReporting,
    WindowsErrorReportingReply,
    /// Registers information for the auxiliary vector of a process.
    RegisterAuxvInfo,
    /// Takes such information back.
    UnregisterAuxvInfo,
    /// Registers a child process that is about to be spawned.
    RegisterChildProcess,
    /// Sent by the crash helper to meet a new child process.
    ChildProcessRendezVous,
    /// The reply of the child, once it is ready to be dumped.
    ChildProcessRendezVousReply,
}

impl Kind {
    /// The byte that stands for the kind in a header.
    pub open spec fn spec_to_u8(self) -> u8 {
        match self {
            Kind::SetCrashReportPath => 1,
            Kind::TransferMinidump => 2,
            Kind::TransferMinidumpReply => 3,
            Kind::GenerateMinidump => 4,
            Kind::GenerateMinidumpReply => 5,
            Kind::WindowsErrorReporting => 6,
            Kind::WindowsErrorReportingReply => 7,
            Kind::RegisterAuxvInfo => 8,
            Kind::UnregisterAuxvInfo => 9,
            Kind::RegisterChildProcess => 10,
            Kind::ChildProcessRendezVous => 11,
            Kind::ChildProcessRendezVousReply => 12,
        }
    }

    /// The kind that a byte stands for, if it stands for one.
    pub open spec fn spec_from_u8(n: u8) -> Option<Kind> {
        if n == 1 {
            Some(Kind::SetCrashReportPath)
        } else if n == 2 {
            Some(Kind::TransferMinidump)
        } else if n == 3 {
            Some(Kind::TransferMinidumpReply)
        } else if n == 4 {
            Some(Kind::GenerateMinidump)
        } else if n == 5 {
            Some(Kind::GenerateMinidumpReply)
        } else if n == 6 {
            Some(Kind::WindowsErrorReporting)
        } else if n == 7 {
            Some(Kind::WindowsErrorReportingReply)
        } else if n == 8 {
            Some(Kind::RegisterAuxvInfo)
        } else if n == 9 {
            Some(Kind::UnregisterAuxvInfo)
        } else if n == 10 {
            Some(Kind::RegisterChildProcess)
        } else if n == 11 {
            Some(Kind::ChildProcessRendezVous)
        } else if n == 12 {
            Some(Kind::ChildProcessRendezVousReply)
        } else {
            None
        }
    }

    /// The byte that stands for the kind in a header.
    pub fn to_u8(self) -> (n: u8)
        ensures
            n == self.spec_to_u8(),
    {
        match self {
            Kind::SetCrashReportPath => 1,
            Kind::TransferMinidump => 2,
            Kind::TransferMinidumpReply => 3,
            Kind::GenerateMinidump => 4,
            Kind::GenerateMinidumpReply => 5,
            Kind::WindowsErrorReporting => 6,
            Kind::WindowsErrorReportingReply => 7,
            Kind::RegisterAuxvInfo => 8,
            Kind::UnregisterAuxvInfo => 9,
            Kind::RegisterChildProcess => 10,
            Kind::ChildProcessRendezVous => 11,
            Kind::ChildProcessRendezVousReply => 12,
        }
    }

    /// The kind that a byte stands for; `None` for a byte that stands for
    /// none.
    pub fn from_u8(n: u8) -> (r: Option<Kind>)
        ensures
            r == Self::spec_from_u8(n),
            r is Some <==> 1 <= n <= 12,
    {
        if n == 1 {
            Some(Kind::SetCrashReportPath)
        } else if n == 2 {
            Some(Kind::TransferMinidump)
        } else if n == 3 {
            Some(Kind::TransferMinidumpReply)
        } else if n == 4 {
            Some(Kind::GenerateMinidump)
        } else if n == 5 {
            Some(Kind::GenerateMinidumpReply)
        } else if n == 6 {
            Some(Kind::WindowsErrorReporting)
        } else if n == 7 {
            Some(Kind::WindowsErrorReportingReply)
        } else if n == 8 {
            Some(Kind::RegisterAuxvInfo)
        } else if n == 9 {
            Some(Kind::UnregisterAuxvInfo)
        } else if n == 10 {
            Some(Kind::RegisterChildProcess)
        } else if n == 11 {
            Some(Kind::ChildProcessRendezVous)
        } else if n == 12 {
            Some(Kind::ChildProcessRendezVousReply)
        } else {
            None
        }
    }
}

/// The byte of a kind stands for that kind, and a byte that stands for a
/// kind is the byte of that kind.
pub proof fn lemma_kind_round_trip(kind: Kind, n: u8)
    ensures
        Kind::spec_from_u8(kind.spec_to_u8()) == Some(kind),
        Kind::spec_from_u8(n) matches Some(k) ==> k.spec_to_u8() == n,
{
}

/// Something that travels beside the bytes of a message: a file descriptor,
/// a handle or a port right, by its number.
#[derive(Clone, Copy, Debug, PartialEq, Eq, Structural)]
pub struct AncillaryData(pub i64);

/// What precedes every message: the kind of the message and the size of its
/// payload in bytes.
#[derive(Clone, Copy, Debug, PartialEq, Eq, Structural)]
pub struct Header {
    pub kind: Kind,
    pub size: usize,
}

/// The number of bytes of a header: one byte for the kind, then the size.
pub open spec fn header_len() -> nat {
    1 + word_len()
}

/// The number of bytes of a header.
pub fn header_size() -> (n: usize)
    ensures
        n == header_len(),
        n == 5 || n == 9,
{
    proof {
        lemma_int_round_trip(0, 0, 0, 0, ByteOrder::LittleEndian);
    }
    1 + core::mem::size_of::<usize>()
}

impl Header {
    /// The bytes of a header.
    pub open spec fn spec_bytes(kind: Kind, size: usize, order: ByteOrder) -> Seq<u8> {
        seq![kind.spec_to_u8()] + usize_bytes(size, order)
    }

    /// The header that bytes start with. Bytes that are too few are
    /// truncated; a first byte that stands for no kind is an invalid kind.
    /// What follows the header is not looked at.
    pub open spec fn spec_decode(bytes: Seq<u8>, order: ByteOrder) -> Result<Header, MessageError> {
        if bytes.len() == 0 {
            Err(MessageError::Truncated)
        } else {
            match Kind::spec_from_u8(bytes[0]) {
                None => Err(MessageError::InvalidKind),
                Some(kind) => if bytes.len() < header_len() {
                    Err(MessageError::Truncated)
                } else {
                    Ok(Header { kind, size: usize_of(bytes.subrange(1, header_len() as int), order) })
                },
            }
        }
    }

    /// The bytes of the header of a message of the given kind and size, with
    /// the size in the given byte order.
    pub fn encode_with(kind: Kind, size: usize, order: ByteOrder) -> (buffer: Bytes)
        ensures
            unread(buffer) == Self::spec_bytes(kind, size, order),
            unread(buffer).len() == header_len(),
    {
        let mut buffer = bytes_mut_with_capacity(header_size());
        put_u8(&mut buffer, kind.to_u8());
        put_usize(&mut buffer, size, order);
        proof {
            lemma_int_round_trip(0, 0, 0, size, order);
            assert(written(buffer) =~= Self::spec_bytes(kind, size, order));
        }
        freeze(buffer)
    }

    /// The bytes of the header of a message of the given kind and size, in
    /// the byte order of the machine.
    pub fn encode(kind: Kind, size: usize) -> (buffer: Bytes)
        ensures
            unread(buffer) == Self::spec_bytes(kind, size, ByteOrder::LittleEndian) || unread(
                buffer,
            ) == Self::spec_bytes(kind, size, ByteOrder::BigEndian),
            unread(buffer).len() == header_len(),
    {
        let mut buffer = bytes_mut_with_capacity(header_size());
        put_u8(&mut buffer, kind.to_u8());
        let ghost tag = written(buffer);
        put_usize_ne(&mut buffer, size);
        proof {
            lemma_int_round_trip(0, 0, 0, size, ByteOrder::LittleEndian);
            lemma_int_round_trip(0, 0, 0, size, ByteOrder::BigEndian);
            assert(tag =~= seq![kind.spec_to_u8()]);
        }
        freeze(buffer)
    }

    /// Reads a header whose size is in the given byte order.
    pub fn decode_with(buffer: Vec<u8>, order: ByteOrder) -> (r: Result<Header, MessageError>)
        ensures
            r == Self::spec_decode(buffer@, order),
    {
        let mut buffer = bytes_from_vec(buffer);
        let ghost all = unread(buffer);
        let kind = match try_get_u8(&mut buffer) {
            Ok(n) => n,
            Err(_) => {
                return Err(MessageError::Truncated);
            },
        };
        let kind = match Kind::from_u8(kind) {
            Some(kind) => kind,
            None => {
                return Err(MessageError::InvalidKind);
            },
        };
        match try_get_usize(&mut buffer, order) {
            Some(size) => {
                assert(all.skip(1).subrange(0, word_len() as int) =~= all.subrange(
                    1,
                    header_len() as int,
                ));
                Ok(Header { kind, size })
            },
            None => Err(MessageError::Truncated),
        }
    }

    /// Reads a header that was written on this machine.
    pub fn decode(buffer: Vec<u8>) -> (r: Result<Header, MessageError>)
        ensures
            r == Self::spec_decode(buffer@, ByteOrder::LittleEndian) || r == Self::spec_decode(
                buffer@,
                ByteOrder::BigEndian,
            ),
            buffer@.len() == 0 ==> r == Err::<Header, MessageError>(MessageError::Truncated),
            buffer@.len() > 0 && Kind::spec_from_u8(buffer@[0]) is None ==> r == Err::<
                Header,
                MessageError,
            >(MessageError::InvalidKind),
            r is Ok <==> buffer@.len() >= header_len() && Kind::spec_from_u8(buffer@[0]) is Some,
    {
        let mut buffer = bytes_from_vec(buffer);
        let ghost all = unread(buffer);
        let kind = match try_get_u8(&mut buffer) {
            Ok(n) => n,
            Err(_) => {
                return Err(MessageError::Truncated);
            },
        };
        let kind = match Kind::from_u8(kind) {
            Some(kind) => kind,
            None => {
                return Err(MessageError::InvalidKind);
            },
        };
        match try_get_usize_ne(&mut buffer) {
            Some(size) => {
                assert(all.skip(1).subrange(0, word_len() as int) =~= all.subrange(
                    1,
                    header_len() as int,
                ));
                Ok(Header { kind, size })
            },
            None => Err(MessageError::Truncated),
        }
    }
}

/// A header that is written and read in the same byte order is read as it
/// was written, whatever follows it.
pub proof fn law_header_round_trip(kind: Kind, size: usize, rest: Seq<u8>, order: ByteOrder)
    ensures
        Header::spec_decode(Header::spec_bytes(kind, size, order) + rest, order) == Ok::<
            Header,
            MessageError,
        >(Header { kind, size }),
{
    lemma_int_round_trip(0, 0, 0, size, order);
    lemma_kind_round_trip(kind, 0);
    let bytes = Header::spec_bytes(kind, size, order) + rest;
    assert(bytes[0] == kind.spec_to_u8());
    assert(bytes.subrange(1, header_len() as int) =~= usize_bytes(size, order));
}

/// A message: what it is sent as, and how it is read.
///
/// A message is sent as a header, a payload and ancillary data. The integers
/// of the payload stand in the byte order of the machine, as messages do not
/// leave it; the functions that take a byte order say exactly what is
/// written and read in either.
pub trait Message: Sized {
    /// The kind of the message.
    spec fn spec_kind() -> Kind;

    /// The payload of the message.
    spec fn payload(&self, order: ByteOrder) -> Seq<u8>;

    /// The ancillary data of the message.
    spec fn ancillary(&self) -> Seq<AncillaryData>;

    /// The message that a payload and ancillary data are read as.
    spec fn spec_decode(
        data: Seq<u8>,
        ancillary_data: Seq<AncillaryData>,
        order: ByteOrder,
    ) -> Result<Self, MessageError>;

    /// A message is read as it was written.
    proof fn law_round_trip(&self, order: ByteOrder)
        ensures
            Self::spec_decode(self.payload(order), self.ancillary(), order) == Ok::<
                Self,
                MessageError,
            >(*self),
    ;

    fn kind() -> (k: Kind)
        ensures
            k == Self::spec_kind(),
    ;

    /// The size of the payload in bytes.
    fn payload_size(&self) -> (n: usize)
        ensures
            n == self.payload(ByteOrder::LittleEndian).len(),
            n == self.payload(ByteOrder::BigEndian).len(),
    ;

    /// The number of ancillary data.
    fn ancillary_data_len(&self) -> (n: usize)
        ensures
            n == self.ancillary().len(),
    ;

    /// The header, the payload and the ancillary data of the message, with
    /// the integers in the given byte order.
    fn encode_with(self, order: ByteOrder) -> (r: (Bytes, Bytes, Vec<AncillaryData>))
        ensures
            unread(r.0) == Header::spec_bytes(
                Self::spec_kind(),
                self.payload(order).len() as usize,
                order,
            ),
            unread(r.1) == self.payload(order),
            r.2@ == self.ancillary(),
    ;

    /// Reads a message whose integers are in the given byte order.
    fn decode_with(data: Vec<u8>, ancillary_data: Vec<AncillaryData>, order: ByteOrder) -> (r:
        Result<Self, MessageError>)
        ensures
            r == Self::spec_decode(data@, ancillary_data@, order),
    ;

    /// The bytes are the payload of the message with each of its integers in
    /// one of the two byte orders.
    spec fn native_payload(&self, bytes: Seq<u8>) -> bool;

    /// `r` is what a payload and ancillary data are read as with each
    /// integer read in one of the two byte orders.
    spec fn native_decoded(
        data: Seq<u8>,
        ancillary_data: Seq<AncillaryData>,
        r: Result<Self, MessageError>,
    ) -> bool;

    /// The header, the payload and the ancillary data of the message, in the
    /// byte order of the machine. The machine's order is one of the two, and
    /// nothing here says which: each integer is stated to stand in one of
    /// them.
    fn encode(self) -> (r: (Bytes, Bytes, Vec<AncillaryData>))
        ensures
            unread(r.0) == Header::spec_bytes(
                Self::spec_kind(),
                self.payload(ByteOrder::LittleEndian).len() as usize,
                ByteOrder::LittleEndian,
            ) || unread(r.0) == Header::spec_bytes(
                Self::spec_kind(),
                self.payload(ByteOrder::LittleEndian).len() as usize,
                ByteOrder::BigEndian,
            ),
            self.native_payload(unread(r.1)),
            r.2@ == self.ancillary(),
    ;

    /// Reads a message that was written on this machine.
    fn decode(data: Vec<u8>, ancillary_data: Vec<AncillaryData>) -> (r: Result<Self, MessageError>)
        ensures
            Self::native_decoded(data@, ancillary_data@, r),
    ;
}

/// The bytes are those of the number in one of the two byte orders.
pub open spec fn i32_in_some_order(v: i32, bytes: Seq<u8>) -> bool {
    bytes == i32_bytes(v, ByteOrder::LittleEndian) || bytes == i32_bytes(v, ByteOrder::BigEndian)
}

/// The bytes are those of the number in one of the two byte orders.
pub open spec fn usize_in_some_order(v: usize, bytes: Seq<u8>) -> bool {
    bytes == usize_bytes(v, ByteOrder::LittleEndian) || bytes == usize_bytes(
        v,
        ByteOrder::BigEndian,
    )
}

/// The number is what the bytes stand for in one of the two byte orders.
pub open spec fn i32_read_in_some_order(v: i32, bytes: Seq<u8>) -> bool {
    v == i32_of(bytes, ByteOrder::LittleEndian) || v == i32_of(bytes, ByteOrder::BigEndian)
}

/// The number is what the bytes stand for in one of the two byte orders.
pub open spec fn usize_read_in_some_order(v: usize, bytes: Seq<u8>) -> bool {
    v == usize_of(bytes, ByteOrder::LittleEndian) || v == usize_of(bytes, ByteOrder::BigEndian)
}

/// What was written behind `before`, in either of two spellings of one
/// length, is what stands behind `before` in `after`.
proof fn lemma_piece(before: Seq<u8>, after: Seq<u8>, le: Seq<u8>, be: Seq<u8>)
    requires
        after == before + le || after == before + be,
        le.len() == be.len(),
    ensures
        after.len() == before.len() + le.len(),
        after.skip(before.len() as int) == le || after.skip(before.len() as int) == be,
{
    if after == before + le {
        assert(after.skip(before.len() as int) =~= le);
    } else {
        assert(after.skip(before.len() as int) =~= be);
    }
}

/// The payload of a message that is one signed 32-bit number, read: with
/// ancillary data the message was not expected, with fewer than four bytes
/// it is truncated. Bytes behind the number are not looked at.
pub open spec fn decode_one_i32(
    data: Seq<u8>,
    ancillary_data: Seq<AncillaryData>,
    order: ByteOrder,
) -> Result<i32, MessageError> {
    if ancillary_data.len() > 0 {
        Err(MessageError::UnexpectedAncillaryData)
    } else if data.len() < 4 {
        Err(MessageError::Truncated)
    } else {
        Ok(i32_of(data.subrange(0, 4), order))
    }
}

/// Reads the payload of a message that is one signed 32-bit number.
fn read_one_i32(data: Vec<u8>, ancillary_data: Vec<AncillaryData>, order: ByteOrder) -> (r: Result<
    i32,
    MessageError,
>)
    ensures
        r == decode_one_i32(data@, ancillary_data@, order),
{
    if ancillary_data.len() > 0 {
        return Err(MessageError::UnexpectedAncillaryData);
    }
    let mut data = bytes_from_vec(data);
    match try_get_i32(&mut data, order) {
        Some(v) => Ok(v),
        None => Err(MessageError::Truncated),
    }
}

/// Writes a message whose payload is one signed 32-bit number.
fn write_one_i32(kind: Kind, v: i32, order: ByteOrder) -> (r: (Bytes, Bytes, Vec<AncillaryData>))
    ensures
        unread(r.0) == Header::spec_bytes(kind, 4, order),
        unread(r.1) == i32_bytes(v, order),
        r.2@ == Seq::<AncillaryData>::empty(),
{
    let header = Header::encode_with(kind, 4, order);
    let mut payload = bytes_mut_with_capacity(4);
    put_i32(&mut payload, v, order);
    assert(written(payload) =~= i32_bytes(v, order));
    (header, freeze(payload), Vec::new())
}

/// Reads the payload of a message that is one signed 32-bit number in the
/// byte order of the machine.
fn read_one_i32_ne(data: Vec<u8>, ancillary_data: Vec<AncillaryData>) -> (r: Result<
    i32,
    MessageError,
>)
    ensures
        r == decode_one_i32(data@, ancillary_data@, ByteOrder::LittleEndian) || r
            == decode_one_i32(data@, ancillary_data@, ByteOrder::BigEndian),
{
    if ancillary_data.len() > 0 {
        return Err(MessageError::UnexpectedAncillaryData);
    }
    let mut data = bytes_from_vec(data);
    match try_get_i32_ne(&mut data) {
        Ok(v) => Ok(v),
        Err(_) => Err(MessageError::Truncated),
    }
}

/// Writes a message whose payload is one signed 32-bit number in the byte
/// order of the machine.
fn write_one_i32_ne(kind: Kind, v: i32) -> (r: (Bytes, Bytes, Vec<AncillaryData>))
    ensures
        unread(r.0) == Header::spec_bytes(kind, 4, ByteOrder::LittleEndian) || unread(r.0)
            == Header::spec_bytes(kind, 4, ByteOrder::BigEndian),
        unread(r.1) == i32_bytes(v, ByteOrder::LittleEndian) || unread(r.1) == i32_bytes(
            v,
            ByteOrder::BigEndian,
        ),
        r.2@ == Seq::<AncillaryData>::empty(),
{
    let header = Header::encode(kind, 4);
    let mut payload = bytes_mut_with_capacity(4);
    put_i32_ne(&mut payload, v);
    proof {
        assert(written(payload) =~= i32_bytes(v, ByteOrder::LittleEndian) || written(payload)
            =~= i32_bytes(v, ByteOrder::BigEndian));
    }
    (header, freeze(payload), Vec::new())
}

/// Asks for the minidump that was generated for a child process.
#[derive(Clone, Copy, Debug, PartialEq, Eq, Structural)]
pub struct TransferMinidump {
    pub id: GeckoChildId,
}

impl TransferMinidump {
    pub fn new(id: GeckoChildId) -> (r: TransferMinidump)
        ensures
            r.id == id,
    {
        TransferMinidump { id }
    }
}

impl Message for TransferMinidump {
    open spec fn spec_kind() -> Kind {
        Kind::TransferMinidump
    }

    /// The id.
    open spec fn payload(&self, order: ByteOrder) -> Seq<u8> {
        i32_bytes(self.id, order)
    }

    open spec fn ancillary(&self) -> Seq<AncillaryData> {
        Seq::empty()
    }

    open spec fn spec_decode(
        data: Seq<u8>,
        ancillary_data: Seq<AncillaryData>,
        order: ByteOrder,
    ) -> Result<Self, MessageError> {
        match decode_one_i32(data, ancillary_data, order) {
            Ok(id) => Ok(TransferMinidump { id }),
            Err(e) => Err(e),
        }
    }

    proof fn law_round_trip(&self, order: ByteOrder) {
        lemma_int_round_trip(0, 0, self.id, 0, order);
        assert(self.payload(order).subrange(0, 4) =~= self.payload(order));
    }

    fn kind() -> (k: Kind) {
        Kind::TransferMinidump
    }

    fn payload_size(&self) -> (n: usize) {
        proof {
            lemma_int_round_trip(0, 0, self.id, 0, ByteOrder::LittleEndian);
            lemma_int_round_trip(0, 0, self.id, 0, ByteOrder::BigEndian);
        }
        4
    }

    fn ancillary_data_len(&self) -> (n: usize) {
        0
    }

    fn encode_with(self, order: ByteOrder) -> (r: (Bytes, Bytes, Vec<AncillaryData>)) {
        proof {
            lemma_int_round_trip(0, 0, self.id, 0, order);
        }
        write_one_i32(Kind::TransferMinidump, self.id, order)
    }

    fn decode_with(data: Vec<u8>, ancillary_data: Vec<AncillaryData>, order: ByteOrder) -> (r:
        Result<Self, MessageError>) {
        match read_one_i32(data, ancillary_data, order) {
            Ok(id) => Ok(TransferMinidump { id }),
            Err(e) => Err(e),
        }
    }

    open spec fn native_payload(&self, bytes: Seq<u8>) -> bool {
        bytes == self.payload(ByteOrder::LittleEndian) || bytes == self.payload(
            ByteOrder::BigEndian,
        )
    }

    open spec fn native_decoded(
        data: Seq<u8>,
        ancillary_data: Seq<AncillaryData>,
        r: Result<Self, MessageError>,
    ) -> bool {
        r == Self::spec_decode(data, ancillary_data, ByteOrder::LittleEndian) || r
            == Self::spec_decode(data, ancillary_data, ByteOrder::BigEndian)
    }

    fn encode(self) -> (r: (Bytes, Bytes, Vec<AncillaryData>)) {
        proof {
            lemma_int_round_trip(0, 0, self.id, 0, ByteOrder::LittleEndian);
        }
        write_one_i32_ne(Kind::TransferMinidump, self.id)
    }

    fn decode(data: Vec<u8>, ancillary_data: Vec<AncillaryData>) -> (r: Result<Self, MessageError>) {
        match read_one_i32_ne(data, ancillary_data) {
            Ok(v) => Ok(TransferMinidump { id: v }),
            Err(e) => Err(e),
        }
    }
}

/// Tells the module of the error reporting of Windows that the crashed
/// process can be torn down.
#[derive(Clone, Copy, Debug, PartialEq, Eq, Structural)]
pub struct WindowsErrorReportingMinidumpReply {}

impl Default for WindowsErrorReportingMinidumpReply {
    fn default() -> Self {
        Self::new()
    }
}

impl WindowsErrorReportingMinidumpReply {
    pub fn new() -> (r: WindowsErrorReportingMinidumpReply)
        ensures
            r == (WindowsErrorReportingMinidumpReply {  }),
    {
        WindowsErrorReportingMinidumpReply {  }
    }
}

impl Message for WindowsErrorReportingMinidumpReply {
    open spec fn spec_kind() -> Kind {
        Kind::WindowsErrorReportingReply
    }

    /// The reply has no payload.
    open spec fn payload(&self, order: ByteOrder) -> Seq<u8> {
        Seq::empty()
    }

    open spec fn ancillary(&self) -> Seq<AncillaryData> {
        Seq::empty()
    }

    /// With ancillary data the reply was not expected; with a payload its
    /// data is invalid.
    open spec fn spec_decode(
        data: Seq<u8>,
        ancillary_data: Seq<AncillaryData>,
        order: ByteOrder,
    ) -> Result<Self, MessageError> {
        if ancillary_data.len() > 0 {
            Err(MessageError::UnexpectedAncillaryData)
        } else if data.len() > 0 {
            Err(MessageError::InvalidData)
        } else {
            Ok(WindowsErrorReportingMinidumpReply {  })
        }
    }

    proof fn law_round_trip(&self, order: ByteOrder) {
    }

    fn kind() -> (k: Kind) {
        Kind::WindowsErrorReportingReply
    }

    fn payload_size(&self) -> (n: usize) {
        0
    }

    fn ancillary_data_len(&self) -> (n: usize) {
        0
    }

    fn encode_with(self, order: ByteOrder) -> (r: (Bytes, Bytes, Vec<AncillaryData>)) {
        let header = Header::encode_with(Kind::WindowsErrorReportingReply, 0, order);
        let payload = bytes_mut_with_capacity(0);
        (header, freeze(payload), Vec::new())
    }

    fn decode_with(data: Vec<u8>, ancillary_data: Vec<AncillaryData>, order: ByteOrder) -> (r:
        Result<Self, MessageError>) {
        if ancillary_data.len() > 0 {
            return Err(MessageError::UnexpectedAncillaryData);
        }
        if data.len() > 0 {
            return Err(MessageError::InvalidData);
        }
        Ok(WindowsErrorReportingMinidumpReply::new())
    }

    open spec fn native_payload(&self, bytes: Seq<u8>) -> bool {
        bytes == Seq::<u8>::empty()
    }

    open spec fn native_decoded(
        data: Seq<u8>,
        ancillary_data: Seq<AncillaryData>,
        r: Result<Self, MessageError>,
    ) -> bool {
        r == Self::spec_decode(data, ancillary_data, ByteOrder::LittleEndian)
    }

    fn encode(self) -> (r: (Bytes, Bytes, Vec<AncillaryData>)) {
        let header = Header::encode(Kind::WindowsErrorReportingReply, 0);
        let payload = bytes_mut_with_capacity(0);
        (header, freeze(payload), Vec::new())
    }

    fn decode(data: Vec<u8>, ancillary_data: Vec<AncillaryData>) -> (r: Result<Self, MessageError>) {
        Self::decode_with(data, ancillary_data, ByteOrder::LittleEndian)
    }
}

/// What a process knows of its auxiliary vector.
#[derive(Clone, Copy, Debug, PartialEq, Eq, Structural)]
pub struct DirectAuxvDumpInfo {
    pub program_header_count: usize,
    pub program_header_address: usize,
    pub linux_gate_address: usize,
    pub entry_address: usize,
}

/// Hands the crash helper what a process knows of its auxiliary vector.
#[derive(Clone, Copy, Debug, PartialEq, Eq, Structural)]
pub struct RegisterAuxvInfo {
    pub id: GeckoChildId,
    pub auxv_info: DirectAuxvDumpInfo,
}

impl RegisterAuxvInfo {
    pub fn new(id: GeckoChildId, auxv_info: DirectAuxvDumpInfo) -> (r: RegisterAuxvInfo)
        ensures
            r.id == id,
            r.auxv_info == auxv_info,
    {
        RegisterAuxvInfo { id, auxv_info }
    }
}

impl Message for RegisterAuxvInfo {
    open spec fn spec_kind() -> Kind {
        Kind::RegisterAuxvInfo
    }

    /// The id, then four words: the number of program headers, where they
    /// are, where the kernel's page of system calls is, and the entry point.
    open spec fn payload(&self, order: ByteOrder) -> Seq<u8> {
        i32_bytes(self.id, order) + usize_bytes(self.auxv_info.program_header_count, order)
            + usize_bytes(self.auxv_info.program_header_address, order) + usize_bytes(
            self.auxv_info.linux_gate_address,
            order,
        ) + usize_bytes(self.auxv_info.entry_address, order)
    }

    open spec fn ancillary(&self) -> Seq<AncillaryData> {
        Seq::empty()
    }

    /// With ancillary data the message was not expected; with fewer bytes
    /// than its five numbers take it is truncated.
    open spec fn spec_decode(
        data: Seq<u8>,
        ancillary_data: Seq<AncillaryData>,
        order: ByteOrder,
    ) -> Result<Self, MessageError> {
        let w = word_len() as int;
        if ancillary_data.len() > 0 {
            Err(MessageError::UnexpectedAncillaryData)
        } else if data.len() < 4 + 4 * w {
            Err(MessageError::Truncated)
        } else {
            Ok(
                RegisterAuxvInfo {
                    id: i32_of(data.subrange(0, 4), order),
                    auxv_info: DirectAuxvDumpInfo {
                        program_header_count: usize_of(data.subrange(4, 4 + w), order),
                        program_header_address: usize_of(
                            data.subrange(4 + w, 4 + 2 * w),
                            order,
                        ),
                        linux_gate_address: usize_of(data.subrange(4 + 2 * w, 4 + 3 * w), order),
                        entry_address: usize_of(data.subrange(4 + 3 * w, 4 + 4 * w), order),
                    },
                },
            )
        }
    }

    proof fn law_round_trip(&self, order: ByteOrder) {
        let w = word_len() as int;
        let info = self.auxv_info;
        lemma_int_round_trip(0, 0, self.id, info.program_header_count, order);
        lemma_int_round_trip(0, 0, 0, info.program_header_address, order);
        lemma_int_round_trip(0, 0, 0, info.linux_gate_address, order);
        lemma_int_round_trip(0, 0, 0, info.entry_address, order);
        let p = self.payload(order);
        assert(p.subrange(0, 4) =~= i32_bytes(self.id, order));
        assert(p.subrange(4, 4 + w) =~= usize_bytes(info.program_header_count, order));
        assert(p.subrange(4 + w, 4 + 2 * w) =~= usize_bytes(info.program_header_address, order));
        assert(p.subrange(4 + 2 * w, 4 + 3 * w) =~= usize_bytes(info.linux_gate_address, order));
        assert(p.subrange(4 + 3 * w, 4 + 4 * w) =~= usize_bytes(info.entry_address, order));
    }

    fn kind() -> (k: Kind) {
        Kind::RegisterAuxvInfo
    }

    fn payload_size(&self) -> (n: usize) {
        proof {
            self.lemma_payload_len(ByteOrder::LittleEndian);
            self.lemma_payload_len(ByteOrder::BigEndian);
        }
        4 + core::mem::size_of::<usize>() * 4
    }

    fn ancillary_data_len(&self) -> (n: usize) {
        0
    }

    fn encode_with(self, order: ByteOrder) -> (r: (Bytes, Bytes, Vec<AncillaryData>)) {
        proof {
            self.lemma_payload_len(order);
            self.lemma_payload_len(ByteOrder::LittleEndian);
            self.lemma_payload_len(ByteOrder::BigEndian);
        }
        let header = Header::encode_with(Kind::RegisterAuxvInfo, self.payload_size(), order);
        let mut payload = bytes_mut_with_capacity(self.payload_size());
        put_i32(&mut payload, self.id, order);
        put_usize(&mut payload, self.auxv_info.program_header_count, order);
        put_usize(&mut payload, self.auxv_info.program_header_address, order);
        put_usize(&mut payload, self.auxv_info.linux_gate_address, order);
        put_usize(&mut payload, self.auxv_info.entry_address, order);
        assert(written(payload) =~= self.payload(order));
        (header, freeze(payload), Vec::new())
    }

    fn decode_with(data: Vec<u8>, ancillary_data: Vec<AncillaryData>, order: ByteOrder) -> (r:
        Result<Self, MessageError>) {
        if ancillary_data.len() > 0 {
            return Err(MessageError::UnexpectedAncillaryData);
        }
        let ghost all = data@;
        let ghost w = word_len() as int;
        proof {
            lemma_int_round_trip(0, 0, 0, 0, order);
        }
        let mut data = bytes_from_vec(data);
        let id = match try_get_i32(&mut data, order) {
            Some(v) => v,
            None => {
                return Err(MessageError::Truncated);
            },
        };
        let program_header_count = match try_get_usize(&mut data, order) {
            Some(v) => v,
            None => {
                return Err(MessageError::Truncated);
            },
        };
        let program_header_address = match try_get_usize(&mut data, order) {
            Some(v) => v,
            None => {
                return Err(MessageError::Truncated);
            },
        };
        let linux_gate_address = match try_get_usize(&mut data, order) {
            Some(v) => v,
            None => {
                return Err(MessageError::Truncated);
            },
        };
        let entry_address = match try_get_usize(&mut data, order) {
            Some(v) => v,
            None => {
                return Err(MessageError::Truncated);
            },
        };
        proof {
            assert(all.skip(4).subrange(0, w) =~= all.subrange(4, 4 + w));
            assert(all.skip(4).skip(w).subrange(0, w) =~= all.subrange(4 + w, 4 + 2 * w));
            assert(all.skip(4).skip(w).skip(w).subrange(0, w) =~= all.subrange(
                4 + 2 * w,
                4 + 3 * w,
            ));
            assert(all.skip(4).skip(w).skip(w).skip(w).subrange(0, w) =~= all.subrange(
                4 + 3 * w,
                4 + 4 * w,
            ));
        }
        Ok(
            RegisterAuxvInfo {
                id,
                auxv_info: DirectAuxvDumpInfo {
                    program_header_count,
                    program_header_address,
                    linux_gate_address,
                    entry_address,
                },
            },
        )
    }

    /// The payload has the length of the five numbers, and each of them
    /// stands in one of the two byte orders.
    open spec fn native_payload(&self, bytes: Seq<u8>) -> bool {
        let w = word_len() as int;
        let info = self.auxv_info;
        &&& bytes.len() == 4 + 4 * w
        &&& i32_in_some_order(self.id, bytes.subrange(0, 4))
        &&& usize_in_some_order(info.program_header_count, bytes.subrange(4, 4 + w))
        &&& usize_in_some_order(info.program_header_address, bytes.subrange(4 + w, 4 + 2 * w))
        &&& usize_in_some_order(info.linux_gate_address, bytes.subrange(4 + 2 * w, 4 + 3 * w))
        &&& usize_in_some_order(info.entry_address, bytes.subrange(4 + 3 * w, 4 + 4 * w))
    }

    /// The errors are those of either byte order; a message that is read has
    /// each number read in one of the two byte orders.
    open spec fn native_decoded(
        data: Seq<u8>,
        ancillary_data: Seq<AncillaryData>,
        r: Result<Self, MessageError>,
    ) -> bool {
        let w = word_len() as int;
        if ancillary_data.len() > 0 {
            r == Err::<Self, MessageError>(MessageError::UnexpectedAncillaryData)
        } else if data.len() < 4 + 4 * w {
            r == Err::<Self, MessageError>(MessageError::Truncated)
        } else {
            &&& r matches Ok(m)
            &&& i32_read_in_some_order(m.id, data.subrange(0, 4))
            &&& usize_read_in_some_order(m.auxv_info.program_header_count, data.subrange(4, 4 + w))
            &&& usize_read_in_some_order(
                m.auxv_info.program_header_address,
                data.subrange(4 + w, 4 + 2 * w),
            )
            &&& usize_read_in_some_order(
                m.auxv_info.linux_gate_address,
                data.subrange(4 + 2 * w, 4 + 3 * w),
            )
            &&& usize_read_in_some_order(
                m.auxv_info.entry_address,
                data.subrange(4 + 3 * w, 4 + 4 * w),
            )
        }
    }

    fn encode(self) -> (r: (Bytes, Bytes, Vec<AncillaryData>)) {
        let ghost w = word_len() as int;
        let info = self.auxv_info;
        proof {
            self.lemma_payload_len(ByteOrder::LittleEndian);
            self.lemma_payload_len(ByteOrder::BigEndian);
            lemma_int_round_trip(0, 0, self.id, info.program_header_count, ByteOrder::LittleEndian);
            lemma_int_round_trip(0, 0, self.id, info.program_header_count, ByteOrder::BigEndian);
            lemma_int_round_trip(0, 0, 0, info.program_header_address, ByteOrder::LittleEndian);
            lemma_int_round_trip(0, 0, 0, info.program_header_address, ByteOrder::BigEndian);
            lemma_int_round_trip(0, 0, 0, info.linux_gate_address, ByteOrder::LittleEndian);
            lemma_int_round_trip(0, 0, 0, info.linux_gate_address, ByteOrder::BigEndian);
            lemma_int_round_trip(0, 0, 0, info.entry_address, ByteOrder::LittleEndian);
            lemma_int_round_trip(0, 0, 0, info.entry_address, ByteOrder::BigEndian);
        }
        let header = Header::encode(Kind::RegisterAuxvInfo, self.payload_size());
        let mut payload = bytes_mut_with_capacity(self.payload_size());
        put_i32_ne(&mut payload, self.id);
        let ghost p0 = written(payload);
        put_usize_ne(&mut payload, info.program_header_count);
        let ghost p1 = written(payload);
        put_usize_ne(&mut payload, info.program_header_address);
        let ghost p2 = written(payload);
        put_usize_ne(&mut payload, info.linux_gate_address);
        let ghost p3 = written(payload);
        put_usize_ne(&mut payload, info.entry_address);
        let ghost p4 = written(payload);
        proof {
            assert(p0.len() == 4 && p1.len() == 4 + w && p2.len() == 4 + 2 * w && p3.len() == 4
                + 3 * w && p4.len() == 4 + 4 * w);
            assert(p0.subrange(0, 4) =~= p0);
            assert(p1.subrange(0, 4) =~= p0 && p1.subrange(4, 4 + w) =~= p1.skip(4));
            assert(p2.subrange(0, 4 + w) =~= p1 && p2.subrange(4 + w, 4 + 2 * w) =~= p2.skip(
                4 + w,
            ));
            assert(p3.subrange(0, 4 + 2 * w) =~= p2 && p3.subrange(4 + 2 * w, 4 + 3 * w)
                =~= p3.skip(4 + 2 * w));
            assert(p4.subrange(0, 4 + 3 * w) =~= p3 && p4.subrange(4 + 3 * w, 4 + 4 * w)
                =~= p4.skip(4 + 3 * w));
            lemma_piece(p0, p1, usize_bytes(info.program_header_count, ByteOrder::LittleEndian), usize_bytes(info.program_header_count, ByteOrder::BigEndian));
            lemma_piece(p1, p2, usize_bytes(info.program_header_address, ByteOrder::LittleEndian), usize_bytes(info.program_header_address, ByteOrder::BigEndian));
            lemma_piece(p2, p3, usize_bytes(info.linux_gate_address, ByteOrder::LittleEndian), usize_bytes(info.linux_gate_address, ByteOrder::BigEndian));
            lemma_piece(p3, p4, usize_bytes(info.entry_address, ByteOrder::LittleEndian), usize_bytes(info.entry_address, ByteOrder::BigEndian));
            assert(p4.subrange(0, 4) =~= p3.subrange(0, 4));
            assert(p3.subrange(0, 4) =~= p2.subrange(0, 4));
            assert(p2.subrange(0, 4) =~= p1.subrange(0, 4));
            assert(p4.subrange(4, 4 + w) =~= p3.subrange(4, 4 + w));
            assert(p3.subrange(4, 4 + w) =~= p2.subrange(4, 4 + w));
            assert(p2.subrange(4, 4 + w) =~= p1.subrange(4, 4 + w));
            assert(p4.subrange(4 + w, 4 + 2 * w) =~= p3.subrange(4 + w, 4 + 2 * w));
            assert(p3.subrange(4 + w, 4 + 2 * w) =~= p2.subrange(4 + w, 4 + 2 * w));
            assert(p4.subrange(4 + 2 * w, 4 + 3 * w) =~= p3.subrange(4 + 2 * w, 4 + 3 * w));
        }
        (header, freeze(payload), Vec::new())
    }

    fn decode(data: Vec<u8>, ancillary_data: Vec<AncillaryData>) -> (r: Result<Self, MessageError>) {
        if ancillary_data.len() > 0 {
            return Err(MessageError::UnexpectedAncillaryData);
        }
        let ghost all = data@;
        let ghost w = word_len() as int;
        proof {
            lemma_int_round_trip(0, 0, 0, 0, ByteOrder::LittleEndian);
        }
        let mut data = bytes_from_vec(data);
        let id = match try_get_i32_ne(&mut data) {
            Ok(v) => v,
            Err(_) => {
                return Err(MessageError::Truncated);
            },
        };
        let program_header_count = match try_get_usize_ne(&mut data) {
            Some(v) => v,
            None => {
                return Err(MessageError::Truncated);
            },
        };
        let program_header_address = match try_get_usize_ne(&mut data) {
            Some(v) => v,
            None => {
                return Err(MessageError::Truncated);
            },
        };
        let linux_gate_address = match try_get_usize_ne(&mut data) {
            Some(v) => v,
            None => {
                return Err(MessageError::Truncated);
            },
        };
        let entry_address = match try_get_usize_ne(&mut data) {
            Some(v) => v,
            None => {
                return Err(MessageError::Truncated);
            },
        };
        proof {
            assert(all.skip(4).subrange(0, w) =~= all.subrange(4, 4 + w));
            assert(all.skip(4).skip(w).subrange(0, w) =~= all.subrange(4 + w, 4 + 2 * w));
            assert(all.skip(4).skip(w).skip(w).subrange(0, w) =~= all.subrange(
                4 + 2 * w,
                4 + 3 * w,
            ));
            assert(all.skip(4).skip(w).skip(w).skip(w).subrange(0, w) =~= all.subrange(
                4 + 3 * w,
                4 + 4 * w,
            ));
        }
        Ok(
            RegisterAuxvInfo {
                id,
                auxv_info: DirectAuxvDumpInfo {
                    program_header_count,
                    program_header_address,
                    linux_gate_address,
                    entry_address,
                },
            },
        )
    }
}

impl RegisterAuxvInfo {
    /// The payload has four bytes and four words.
    pub proof fn lemma_payload_len(&self, order: ByteOrder)
        ensures
            self.payload(order).len() == 4 + 4 * word_len(),
            word_len() == 4 || word_len() == 8,
    {
        let info = self.auxv_info;
        lemma_int_round_trip(0, 0, self.id, info.program_header_count, order);
        lemma_int_round_trip(0, 0, 0, info.program_header_address, order);
        lemma_int_round_trip(0, 0, 0, info.linux_gate_address, order);
        lemma_int_round_trip(0, 0, 0, info.entry_address, order);
    }
}

/// Tells the crash helper that the information on the auxiliary vector of a
/// process is not needed any more.
#[derive(Clone, Copy, Debug, PartialEq, Eq, Structural)]
pub struct UnregisterAuxvInfo {
    pub id: GeckoChildId,
}

impl UnregisterAuxvInfo {
    pub fn new(id: GeckoChildId) -> (r: UnregisterAuxvInfo)
        ensures
            r.id == id,
    {
        UnregisterAuxvInfo { id }
    }
}

impl Message for UnregisterAuxvInfo {
    open spec fn spec_kind() -> Kind {
        Kind::UnregisterAuxvInfo
    }

    /// The id.
    open spec fn payload(&self, order: ByteOrder) -> Seq<u8> {
        i32_bytes(self.id, order)
    }

    open spec fn ancillary(&self) -> Seq<AncillaryData> {
        Seq::empty()
    }

    open spec fn spec_decode(
        data: Seq<u8>,
        ancillary_data: Seq<AncillaryData>,
        order: ByteOrder,
    ) -> Result<Self, MessageError> {
        match decode_one_i32(data, ancillary_data, order) {
            Ok(id) => Ok(UnregisterAuxvInfo { id }),
            Err(e) => Err(e),
        }
    }

    proof fn law_round_trip(&self, order: ByteOrder) {
        lemma_int_round_trip(0, 0, self.id, 0, order);
        assert(self.payload(order).subrange(0, 4) =~= self.payload(order));
    }

    fn kind() -> (k: Kind) {
        Kind::UnregisterAuxvInfo
    }

    fn payload_size(&self) -> (n: usize) {
        proof {
            lemma_int_round_trip(0, 0, self.id, 0, ByteOrder::LittleEndian);
            lemma_int_round_trip(0, 0, self.id, 0, ByteOrder::BigEndian);
        }
        4
    }

    fn ancillary_data_len(&self) -> (n: usize) {
        0
    }

    fn encode_with(self, order: ByteOrder) -> (r: (Bytes, Bytes, Vec<AncillaryData>)) {
        proof {
            lemma_int_round_trip(0, 0, self.id, 0, order);
        }
        write_one_i32(Kind::UnregisterAuxvInfo, self.id, order)
    }

    fn decode_with(data: Vec<u8>, ancillary_data: Vec<AncillaryData>, order: ByteOrder) -> (r:
        Result<Self, MessageError>) {
        match read_one_i32(data, ancillary_data, order) {
            Ok(id) => Ok(UnregisterAuxvInfo { id }),
            Err(e) => Err(e),
        }
    }

    open spec fn native_payload(&self, bytes: Seq<u8>) -> bool {
        bytes == self.payload(ByteOrder::LittleEndian) || bytes == self.payload(
            ByteOrder::BigEndian,
        )
    }

    open spec fn native_decoded(
        data: Seq<u8>,
        ancillary_data: Seq<AncillaryData>,
        r: Result<Self, MessageError>,
    ) -> bool {
        r == Self::spec_decode(data, ancillary_data, ByteOrder::LittleEndian) || r
            == Self::spec_decode(data, ancillary_data, ByteOrder::BigEndian)
    }

    fn encode(self) -> (r: (Bytes, Bytes, Vec<AncillaryData>)) {
        proof {
            lemma_int_round_trip(0, 0, self.id, 0, ByteOrder::LittleEndian);
        }
        write_one_i32_ne(Kind::UnregisterAuxvInfo, self.id)
    }

    fn decode(data: Vec<u8>, ancillary_data: Vec<AncillaryData>) -> (r: Result<Self, MessageError>) {
        match read_one_i32_ne(data, ancillary_data) {
            Ok(v) => Ok(UnregisterAuxvInfo { id: v }),
            Err(e) => Err(e),
        }
    }
}

/// Sent by the crash helper to a child process that was registered. The
/// child prepares itself for being dumped and replies.
#[derive(Clone, Copy, Debug, PartialEq, Eq, Structural)]
pub struct ChildProcessRendezVous {
    pub crash_helper_pid: Pid,
}

impl ChildProcessRendezVous {
    pub fn new(pid: Pid) -> (r: ChildProcessRendezVous)
        ensures
            r.crash_helper_pid == pid,
    {
        ChildProcessRendezVous { crash_helper_pid: pid }
    }
}

impl Message for ChildProcessRendezVous {
    open spec fn spec_kind() -> Kind {
        Kind::ChildProcessRendezVous
    }

    /// The id of the process of the crash helper.
    open spec fn payload(&self, order: ByteOrder) -> Seq<u8> {
        i32_bytes(self.crash_helper_pid, order)
    }

    open spec fn ancillary(&self) -> Seq<AncillaryData> {
        Seq::empty()
    }

    open spec fn spec_decode(
        data: Seq<u8>,
        ancillary_data: Seq<AncillaryData>,
        order: ByteOrder,
    ) -> Result<Self, MessageError> {
        match decode_one_i32(data, ancillary_data, order) {
            Ok(pid) => Ok(ChildProcessRendezVous { crash_helper_pid: pid }),
            Err(e) => Err(e),
        }
    }

    proof fn law_round_trip(&self, order: ByteOrder) {
        lemma_int_round_trip(0, 0, self.crash_helper_pid, 0, order);
        assert(self.payload(order).subrange(0, 4) =~= self.payload(order));
    }

    fn kind() -> (k: Kind) {
        Kind::ChildProcessRendezVous
    }

    fn payload_size(&self) -> (n: usize) {
        proof {
            lemma_int_round_trip(0, 0, self.crash_helper_pid, 0, ByteOrder::LittleEndian);
            lemma_int_round_trip(0, 0, self.crash_helper_pid, 0, ByteOrder::BigEndian);
        }
        4
    }

    fn ancillary_data_len(&self) -> (n: usize) {
        0
    }

    fn encode_with(self, order: ByteOrder) -> (r: (Bytes, Bytes, Vec<AncillaryData>)) {
        proof {
            lemma_int_round_trip(0, 0, self.crash_helper_pid, 0, order);
        }
        write_one_i32(Kind::ChildProcessRendezVous, self.crash_helper_pid, order)
    }

    fn decode_with(data: Vec<u8>, ancillary_data: Vec<AncillaryData>, order: ByteOrder) -> (r:
        Result<Self, MessageError>) {
        match read_one_i32(data, ancillary_data, order) {
            Ok(pid) => Ok(ChildProcessRendezVous { crash_helper_pid: pid }),
            Err(e) => Err(e),
        }
    }

    open spec fn native_payload(&self, bytes: Seq<u8>) -> bool {
        bytes == self.payload(ByteOrder::LittleEndian) || bytes == self.payload(
            ByteOrder::BigEndian,
        )
    }

    open spec fn native_decoded(
        data: Seq<u8>,
        ancillary_data: Seq<AncillaryData>,
        r: Result<Self, MessageError>,
    ) -> bool {
        r == Self::spec_decode(data, ancillary_data, ByteOrder::LittleEndian) || r
            == Self::spec_decode(data, ancillary_data, ByteOrder::BigEndian)
    }

    fn encode(self) -> (r: (Bytes, Bytes, Vec<AncillaryData>)) {
        proof {
            lemma_int_round_trip(0, 0, self.crash_helper_pid, 0, ByteOrder::LittleEndian);
        }
        write_one_i32_ne(Kind::ChildProcessRendezVous, self.crash_helper_pid)
    }

    fn decode(data: Vec<u8>, ancillary_data: Vec<AncillaryData>) -> (r: Result<Self, MessageError>) {
        match read_one_i32_ne(data, ancillary_data) {
            Ok(v) => Ok(ChildProcessRendezVous { crash_helper_pid: v }),
            Err(e) => Err(e),
        }
    }
}

} // verus!
