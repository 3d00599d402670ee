//! The layout of a Mach message that carries port rights and data.
//!
//! A message is a header, a body that counts the descriptors, the
//! descriptors of the port rights, and the data, padded to four bytes. A
//! message that is received has a trailer behind its data.

use vstd::prelude::*;

verus! {

/// The size of the header of a message: six 32-bit fields.
pub const HEADER_LEN: usize = 24;

/// The size of the body of a message: the number of its descriptors.
pub const BODY_LEN: usize = 4;

/// The size of the descriptor of a port right.
pub const PORT_DESCRIPTOR_LEN: usize = 12;

/// The size of the trailer that the kernel puts behind a received message.
pub const TRAILER_LEN: usize = 8;

/// A received message without data is at least this large: the notice that
/// no senders are left comes with eight bytes.
pub const MIN_MESSAGE_SIZE: usize = 8;

/// The least multiple of four that is not below `n`.
pub open spec fn round_up_4(n: int) -> int {
    ((n + 3) / 4) * 4
}

/// Where the data of a message with `descriptors` descriptors starts.
pub open spec fn spec_data_offset(descriptors: int) -> int {
    HEADER_LEN + BODY_LEN + PORT_DESCRIPTOR_LEN * descriptors
}

/// The size of a message with `size` bytes of data and `descriptors`
/// descriptors.
pub open spec fn spec_compute_size(size: int, descriptors: int) -> int {
    spec_data_offset(descriptors) + round_up_4(size)
}

/// A message: its size, the number of its descriptors and its data.
pub struct MachMessageWrapper {
    msgh_size: u32,
    descriptor_count: u32,
    data: Vec<u8>,
}

impl MachMessageWrapper {
    /// The size of the whole message, as its header tells it.
    pub closed spec fn spec_size(&self) -> u32 {
        self.msgh_size
    }

    /// The number of descriptors, as the body tells it.
    pub closed spec fn spec_descriptors_len(&self) -> u32 {
        self.descriptor_count
    }

    /// The data of the message, padding included.
    pub closed spec fn spec_data(&self) -> Seq<u8> {
        self.data@
    }

    /// The message is as large as its parts: what precedes the data, and the
    /// data.
    pub open spec fn wf(&self) -> bool {
        self.spec_size() == spec_data_offset(self.spec_descriptors_len() as int)
            + self.spec_data().len()
    }

    /// The size of a message with `size` bytes of data and `descriptors`
    /// descriptors. Message sizes are 32-bit numbers.
    pub fn compute_size(size: usize, descriptors: u32) -> (r: u32)
        requires
            spec_compute_size(size as int, descriptors as int) <= u32::MAX,
        ensures
            r == spec_compute_size(size as int, descriptors as int),
    {
        let rounded: u64 = ((size as u64 + 3) / 4) * 4;
        let total: u64 = 28 + 12 * (descriptors as u64) + rounded;
        total as u32
    }

    /// A message to be sent, with room for `size` bytes of data and
    /// `descriptors` descriptors. The data is zero.
    pub fn for_send(size: usize, descriptors: u32) -> (r: MachMessageWrapper)
        requires
            spec_compute_size(size as int, descriptors as int) <= u32::MAX,
        ensures
            r.wf(),
            r.spec_size() == spec_compute_size(size as int, descriptors as int),
            r.spec_descriptors_len() == descriptors,
            r.spec_data().len() == round_up_4(size as int),
            forall|i: int| 0 <= i < r.spec_data().len() ==> r.spec_data()[i] == 0,
    {
        let total = Self::compute_size(size, descriptors);
        let data_len: usize = ((size + 3) / 4) * 4;
        MachMessageWrapper {
            msgh_size: total,
            descriptor_count: descriptors,
            data: zeroes(data_len),
        }
    }

    /// A message to receive into, with room for `expected_size` bytes of
    /// data, the trailer and `expected_descriptors` descriptors.
    pub fn for_recv(expected_size: usize, expected_descriptors: u32) -> (r: MachMessageWrapper)
        requires
            spec_compute_size(expected_size + TRAILER_LEN, expected_descriptors as int)
                <= u32::MAX,
        ensures
            r.wf(),
            r.spec_size() == spec_compute_size(
                expected_size + TRAILER_LEN,
                expected_descriptors as int,
            ),
            r.spec_descriptors_len() == expected_descriptors,
            r.spec_data().len() == round_up_4(expected_size + TRAILER_LEN),
            forall|i: int| 0 <= i < r.spec_data().len() ==> r.spec_data()[i] == 0,
    {
        Self::for_send(expected_size + TRAILER_LEN, expected_descriptors)
    }

    /// The number of bytes of data: the size of the message without what
    /// precedes the data.
    pub fn data_size(&self) -> (n: usize)
        requires
            self.wf(),
        ensures
            n == self.spec_size() - spec_data_offset(self.spec_descriptors_len() as int),
            n == self.spec_data().len(),
    {
        self.msgh_size as usize - self.data_offset()
    }

    /// The number of descriptors.
    pub fn descriptors_len(&self) -> (n: usize)
        ensures
            n == self.spec_descriptors_len(),
    {
        self.descriptor_count as usize
    }

    /// Where the data starts.
    fn data_offset(&self) -> (n: usize)
        requires
            self.wf(),
        ensures
            n == spec_data_offset(self.descriptor_count as int),
    {
        HEADER_LEN + BODY_LEN + (self.descriptor_count as usize) * PORT_DESCRIPTOR_LEN
    }

    /// The data of the message.
    pub fn data(&self) -> (d: &[u8])
        ensures
            d@ == self.spec_data(),
    {
        self.data.as_slice()
    }

    /// The size of the whole message.
    pub fn size(&self) -> (n: u32)
        ensures
            n == self.spec_size(),
    {
        self.msgh_size
    }

    /// Writes `bytes` to the start of the data.
    pub fn write_data(&mut self, bytes: &[u8])
        requires
            old(self).wf(),
            bytes@.len() <= old(self).spec_data().len(),
        ensures
            final(self).wf(),
            final(self).spec_size() == old(self).spec_size(),
            final(self).spec_descriptors_len() == old(self).spec_descriptors_len(),
            final(self).spec_data() == bytes@ + old(self).spec_data().skip(bytes@.len() as int),
    {
        let n = bytes.len();
        let mut i: usize = 0;
        while i < n
            invariant
                i <= n,
                n == bytes@.len(),
                n <= self.data@.len(),
                self.data@.len() == old(self).data@.len(),
                self.msgh_size == old(self).msgh_size,
                self.descriptor_count == old(self).descriptor_count,
                forall|k: int| 0 <= k < i ==> self.data@[k] == bytes@[k],
                forall|k: int| i <= k < self.data@.len() ==> self.data@[k] == old(self).data@[k],
            decreases n - i,
        {
            self.data.set(i, bytes[i]);
            i += 1;
        }
        assert(self.data@ =~= bytes@ + old(self).data@.skip(n as int));
    }
}

/// A vector of `n` zero bytes.
fn zeroes(n: usize) -> (v: Vec<u8>)
    ensures
        v@.len() == n,
        forall|i: int| 0 <= i < n ==> v@[i] == 0,
{
    let mut v: Vec<u8> = Vec::new();
    let mut i: usize = 0;
    while i < n
        invariant
            i <= n,
            v@.len() == i,
            forall|k: int| 0 <= k < i ==> v@[k] == 0,
        decreases n - i,
    {
        v.push(0);
        i += 1;
    }
    v
}

/// The size of a message is a multiple of four, and leaves room for the data
/// that was asked for.
pub proof fn lemma_compute_size(size: int, descriptors: int)
    requires
        0 <= size,
        0 <= descriptors,
    ensures
        spec_compute_size(size, descriptors) % 4 == 0,
        size <= round_up_4(size) < size + 4,
        spec_compute_size(size, descriptors) - spec_data_offset(descriptors) >= size,
{
}

} // verus!
