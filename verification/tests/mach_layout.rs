//! The sizes of Mach messages.

use tile_invalidation::mach::{
    MachMessageWrapper, BODY_LEN, HEADER_LEN, MIN_MESSAGE_SIZE, PORT_DESCRIPTOR_LEN, TRAILER_LEN,
};

#[test]
fn test_compute_size() {
    assert_eq!(HEADER_LEN, 24);
    assert_eq!(BODY_LEN, 4);
    assert_eq!(PORT_DESCRIPTOR_LEN, 12);
    assert_eq!(TRAILER_LEN, 8);
    assert_eq!(MIN_MESSAGE_SIZE, 8);
    assert_eq!(MachMessageWrapper::compute_size(0, 0), 28);
    assert_eq!(MachMessageWrapper::compute_size(1, 0), 32);
    assert_eq!(MachMessageWrapper::compute_size(4, 0), 32);
    assert_eq!(MachMessageWrapper::compute_size(5, 0), 36);
    assert_eq!(MachMessageWrapper::compute_size(0, 3), 64);
    assert_eq!(MachMessageWrapper::compute_size(9, 2), 28 + 24 + 12);
    assert_eq!(MachMessageWrapper::compute_size(0xffff_0000, 0), 0xffff_001c);
}

#[test]
fn test_for_send() {
    let message = MachMessageWrapper::for_send(10, 2);
    assert_eq!(message.size(), 64);
    assert_eq!(message.descriptors_len(), 2);
    assert_eq!(message.data_size(), 12);
    assert_eq!(message.data(), &[0u8; 12]);

    let empty = MachMessageWrapper::for_send(0, 0);
    assert_eq!(empty.size(), 28);
    assert_eq!(empty.descriptors_len(), 0);
    assert_eq!(empty.data_size(), 0);
    assert!(empty.data().is_empty());
}

#[test]
fn test_for_recv() {
    let message = MachMessageWrapper::for_recv(10, 1);
    assert_eq!(message.size(), 24 + 4 + 12 + 20);
    assert_eq!(message.descriptors_len(), 1);
    assert_eq!(message.data_size(), 20);
    let least = MachMessageWrapper::for_recv(MIN_MESSAGE_SIZE, 0);
    assert_eq!(least.size(), 28 + 16);
    assert_eq!(least.data_size(), 16);
}

#[test]
fn test_write_data() {
    let mut message = MachMessageWrapper::for_send(6, 0);
    message.write_data(&[1, 2, 3, 4, 5, 6]);
    assert_eq!(message.data(), &[1, 2, 3, 4, 5, 6, 0, 0]);
    message.write_data(&[9, 8]);
    assert_eq!(message.data(), &[9, 8, 3, 4, 5, 6, 0, 0]);
    assert_eq!(message.size(), 36);
    assert_eq!(message.data_size(), 8);
}
