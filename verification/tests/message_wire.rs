//! Headers and messages as bytes.

use bytes::{Bytes, BytesMut};
use tile_invalidation::messages::{
    header_size, AncillaryData, ChildProcessRendezVous, DirectAuxvDumpInfo, Header, Kind, Message,
    MessageError, RegisterAuxvInfo, TransferMinidump, UnregisterAuxvInfo,
    WindowsErrorReportingMinidumpReply,
};
use tile_invalidation::wire::{
    byte_order_of_one, native_byte_order, put_i32, put_u32, put_u64, put_usize, put_usize_ne,
    try_get_i32, try_get_u32, try_get_u64, try_get_usize, try_get_usize_ne, ByteOrder,
};

const WORD: usize = std::mem::size_of::<usize>();

/// The bytes of a word-sized number in the given order.
fn word(n: usize, order: ByteOrder) -> Vec<u8> {
    let mut le: Vec<u8> = n.to_le_bytes().to_vec();
    if order == ByteOrder::BigEndian {
        le.reverse();
    }
    le
}

fn native() -> ByteOrder {
    if 1u16.to_ne_bytes() == 1u16.to_le_bytes() {
        ByteOrder::LittleEndian
    } else {
        ByteOrder::BigEndian
    }
}

#[test]
fn test_native_byte_order() {
    assert_eq!(native_byte_order(), native());
    assert_eq!(native_byte_order(), byte_order_of_one(1u16.to_ne_bytes()));
}

#[test]
fn test_byte_order_of_one() {
    assert_eq!(byte_order_of_one(1u16.to_le_bytes()), ByteOrder::LittleEndian);
    assert_eq!(byte_order_of_one(1u16.to_be_bytes()), ByteOrder::BigEndian);
    assert_eq!(byte_order_of_one([1, 0]), ByteOrder::LittleEndian);
    assert_eq!(byte_order_of_one([0, 1]), ByteOrder::BigEndian);
}

#[test]
fn test_integers_on_the_wire() {
    let mut buffer = BytesMut::new();
    put_u32(&mut buffer, 0x0102_0304, ByteOrder::LittleEndian);
    put_u32(&mut buffer, 0x0102_0304, ByteOrder::BigEndian);
    put_i32(&mut buffer, -2, ByteOrder::LittleEndian);
    put_i32(&mut buffer, -2, ByteOrder::BigEndian);
    put_u64(&mut buffer, 0x0102_0304_0506_0708, ByteOrder::LittleEndian);
    put_u64(&mut buffer, 0x0102_0304_0506_0708, ByteOrder::BigEndian);
    assert_eq!(
        &buffer[..],
        &[
            4, 3, 2, 1, 1, 2, 3, 4, 0xfe, 0xff, 0xff, 0xff, 0xff, 0xff, 0xff, 0xfe, 8, 7, 6, 5, 4,
            3, 2, 1, 1, 2, 3, 4, 5, 6, 7, 8
        ]
    );
    let mut bytes = buffer.freeze();
    assert_eq!(try_get_u32(&mut bytes, ByteOrder::LittleEndian), Some(0x0102_0304));
    assert_eq!(try_get_u32(&mut bytes, ByteOrder::BigEndian), Some(0x0102_0304));
    assert_eq!(try_get_i32(&mut bytes, ByteOrder::LittleEndian), Some(-2));
    assert_eq!(try_get_i32(&mut bytes, ByteOrder::BigEndian), Some(-2));
    assert_eq!(try_get_u64(&mut bytes, ByteOrder::LittleEndian), Some(0x0102_0304_0506_0708));
    // Read in the wrong order, a number comes out mirrored.
    assert_eq!(try_get_u64(&mut bytes, ByteOrder::LittleEndian), Some(0x0807_0605_0403_0201));
    assert_eq!(try_get_u32(&mut bytes, ByteOrder::LittleEndian), None);

    let mut short = Bytes::from(vec![1u8, 2, 3]);
    assert_eq!(try_get_i32(&mut short, ByteOrder::LittleEndian), None);
    assert_eq!(try_get_u64(&mut short, ByteOrder::LittleEndian), None);
    assert_eq!(try_get_usize(&mut short, ByteOrder::LittleEndian), None);
    // Nothing was read.
    assert_eq!(&short[..], &[1, 2, 3]);

    for order in [ByteOrder::LittleEndian, ByteOrder::BigEndian] {
        let mut buffer = BytesMut::new();
        put_usize(&mut buffer, 0x0102_0304, order);
        assert_eq!(&buffer[..], &word(0x0102_0304, order)[..]);
        let mut bytes = buffer.freeze();
        assert_eq!(try_get_usize(&mut bytes, order), Some(0x0102_0304));
        assert!(bytes.is_empty());
    }
}

#[test]
fn test_words_in_the_order_of_the_machine() {
    let mut buffer = BytesMut::new();
    put_usize_ne(&mut buffer, 0x0102_0304);
    put_usize_ne(&mut buffer, usize::MAX - 1);
    let mut expected = 0x0102_0304usize.to_ne_bytes().to_vec();
    expected.extend((usize::MAX - 1).to_ne_bytes());
    assert_eq!(&buffer[..], &expected[..]);
    let mut bytes = buffer.freeze();
    assert_eq!(try_get_usize_ne(&mut bytes), Some(0x0102_0304));
    assert_eq!(try_get_usize_ne(&mut bytes), Some(usize::MAX - 1));
    assert_eq!(try_get_usize_ne(&mut bytes), None);
    let mut short = Bytes::from(vec![1u8; WORD - 1]);
    assert_eq!(try_get_usize_ne(&mut short), None);
    assert_eq!(short.len(), WORD - 1);
}

#[test]
fn test_the_machine_writes_in_its_order() {
    let message = RegisterAuxvInfo::new(
        -5,
        DirectAuxvDumpInfo {
            program_header_count: 11,
            program_header_address: 0x4000_0040,
            linux_gate_address: 0x7fff_0000,
            entry_address: 0x4000_1000,
        },
    );
    let (header, payload, _) = message.encode();
    let (header_with, payload_with, _) = message.encode_with(native_byte_order());
    assert_eq!(header, header_with);
    assert_eq!(payload, payload_with);
    assert_eq!(
        RegisterAuxvInfo::decode(payload.to_vec(), vec![]),
        RegisterAuxvInfo::decode_with(payload.to_vec(), vec![], native_byte_order())
    );
    let transfer = TransferMinidump::new(0x0102_0304);
    assert_eq!(transfer.encode().1, transfer.encode_with(native_byte_order()).1);
    assert_eq!(
        Header::encode(Kind::GenerateMinidump, 77),
        Header::encode_with(Kind::GenerateMinidump, 77, native_byte_order())
    );
}

#[test]
fn test_header_bytes() {
    assert_eq!(header_size(), 1 + WORD);
    for order in [ByteOrder::LittleEndian, ByteOrder::BigEndian] {
        let header = Header::encode_with(Kind::TransferMinidump, 4, order);
        let mut expected = vec![2u8];
        expected.extend(word(4, order));
        assert_eq!(&header[..], &expected[..]);
        assert_eq!(
            Header::decode_with(expected.clone(), order),
            Ok(Header { kind: Kind::TransferMinidump, size: 4 })
        );
        // What follows the header is not looked at.
        expected.extend([9, 9, 9]);
        assert_eq!(
            Header::decode_with(expected, order),
            Ok(Header { kind: Kind::TransferMinidump, size: 4 })
        );
    }
    let header = Header::encode(Kind::ChildProcessRendezVousReply, 0x1234);
    let mut expected = vec![12u8];
    expected.extend(0x1234usize.to_ne_bytes());
    assert_eq!(&header[..], &expected[..]);
    assert_eq!(
        Header::decode(header.to_vec()),
        Ok(Header { kind: Kind::ChildProcessRendezVousReply, size: 0x1234 })
    );
}

#[test]
fn test_header_errors() {
    assert_eq!(Header::decode(vec![]), Err(MessageError::Truncated));
    assert_eq!(Header::decode(vec![0; 9]), Err(MessageError::InvalidKind));
    assert_eq!(Header::decode(vec![13; 9]), Err(MessageError::InvalidKind));
    // The kind is looked at before the size is missed.
    assert_eq!(Header::decode(vec![200]), Err(MessageError::InvalidKind));
    assert_eq!(Header::decode(vec![1]), Err(MessageError::Truncated));
    assert_eq!(Header::decode(vec![1; WORD]), Err(MessageError::Truncated));
    assert!(Header::decode(vec![1; WORD + 1]).is_ok());
}

#[test]
fn test_transfer_minidump_wire() {
    let message = TransferMinidump::new(0x0a0b_0c0d);
    let (header, payload, ancillary) = message.encode_with(ByteOrder::BigEndian);
    let mut expected_header = vec![2u8];
    expected_header.extend(word(4, ByteOrder::BigEndian));
    assert_eq!(&header[..], &expected_header[..]);
    assert_eq!(&payload[..], &[0x0a, 0x0b, 0x0c, 0x0d]);
    assert!(ancillary.is_empty());
    let (_, payload, _) = message.encode_with(ByteOrder::LittleEndian);
    assert_eq!(&payload[..], &[0x0d, 0x0c, 0x0b, 0x0a]);

    let (header, payload, ancillary) = message.encode();
    assert_eq!(
        Header::decode(header.to_vec()),
        Ok(Header { kind: Kind::TransferMinidump, size: 4 })
    );
    assert_eq!(&payload[..], &0x0a0b_0c0di32.to_ne_bytes());
    assert_eq!(TransferMinidump::decode(payload.to_vec(), ancillary), Ok(message));

    assert_eq!(
        TransferMinidump::decode(vec![1, 2, 3], vec![]),
        Err(MessageError::Truncated)
    );
    assert_eq!(
        TransferMinidump::decode(vec![1, 2, 3, 4], vec![AncillaryData(3)]),
        Err(MessageError::UnexpectedAncillaryData)
    );
    // The ancillary data is looked at first.
    assert_eq!(
        TransferMinidump::decode(vec![], vec![AncillaryData(3)]),
        Err(MessageError::UnexpectedAncillaryData)
    );
    assert_eq!(
        TransferMinidump::decode_with(vec![0xff, 0xff, 0xff, 0xfe, 7], vec![], ByteOrder::BigEndian),
        Ok(TransferMinidump::new(-2))
    );
}

#[test]
fn test_messages_of_one_number() {
    let unregister = UnregisterAuxvInfo::new(-7);
    let (header, payload, ancillary) = unregister.encode();
    assert_eq!(header[0], 9);
    assert_eq!(Header::decode(header.to_vec()).map(|h| h.size), Ok(4));
    assert_eq!(&payload[..], &(-7i32).to_ne_bytes());
    assert_eq!(UnregisterAuxvInfo::decode(payload.to_vec(), ancillary), Ok(unregister));
    assert_eq!(UnregisterAuxvInfo::decode(vec![0; 3], vec![]), Err(MessageError::Truncated));
    assert_eq!(
        UnregisterAuxvInfo::decode(vec![0; 4], vec![AncillaryData(0)]),
        Err(MessageError::UnexpectedAncillaryData)
    );

    let rendezvous = ChildProcessRendezVous::new(4321);
    let (header, payload, ancillary) = rendezvous.encode();
    assert_eq!(header[0], 11);
    assert_eq!(&payload[..], &4321i32.to_ne_bytes());
    assert_eq!(ChildProcessRendezVous::decode(payload.to_vec(), ancillary), Ok(rendezvous));
    assert_eq!(ChildProcessRendezVous::decode(vec![], vec![]), Err(MessageError::Truncated));
    assert_eq!(
        ChildProcessRendezVous::decode(vec![0; 4], vec![AncillaryData(0), AncillaryData(1)]),
        Err(MessageError::UnexpectedAncillaryData)
    );
}

#[test]
fn test_empty_reply_wire() {
    let reply = WindowsErrorReportingMinidumpReply::new();
    let (header, payload, ancillary) = reply.encode();
    assert_eq!(
        Header::decode(header.to_vec()),
        Ok(Header { kind: Kind::WindowsErrorReportingReply, size: 0 })
    );
    assert!(payload.is_empty());
    assert!(ancillary.is_empty());
    assert_eq!(WindowsErrorReportingMinidumpReply::decode(vec![], vec![]), Ok(reply));
    assert_eq!(
        WindowsErrorReportingMinidumpReply::decode(vec![0], vec![]),
        Err(MessageError::InvalidData)
    );
    assert_eq!(
        WindowsErrorReportingMinidumpReply::decode(vec![0], vec![AncillaryData(1)]),
        Err(MessageError::UnexpectedAncillaryData)
    );
}

#[test]
fn test_register_auxv_info_wire() {
    let info = DirectAuxvDumpInfo {
        program_header_count: 11,
        program_header_address: 0x4000_0040,
        linux_gate_address: 0x7fff_0000,
        entry_address: 0x4000_1000,
    };
    let message = RegisterAuxvInfo::new(5, info);
    assert_eq!(RegisterAuxvInfo::kind(), Kind::RegisterAuxvInfo);
    assert_eq!(message.payload_size(), 4 + 4 * WORD);
    assert_eq!(message.ancillary_data_len(), 0);
    for order in [ByteOrder::LittleEndian, ByteOrder::BigEndian] {
        let (header, payload, ancillary) = message.encode_with(order);
        assert_eq!(
            Header::decode_with(header.to_vec(), order),
            Ok(Header { kind: Kind::RegisterAuxvInfo, size: 4 + 4 * WORD })
        );
        let mut expected: Vec<u8> = if order == ByteOrder::LittleEndian {
            vec![5, 0, 0, 0]
        } else {
            vec![0, 0, 0, 5]
        };
        expected.extend(word(11, order));
        expected.extend(word(0x4000_0040, order));
        expected.extend(word(0x7fff_0000, order));
        expected.extend(word(0x4000_1000, order));
        assert_eq!(&payload[..], &expected[..]);
        assert!(ancillary.is_empty());
        assert_eq!(RegisterAuxvInfo::decode_with(expected.clone(), vec![], order), Ok(message));
        for len in 0..expected.len() {
            assert_eq!(
                RegisterAuxvInfo::decode_with(expected[..len].to_vec(), vec![], order),
                Err(MessageError::Truncated)
            );
        }
        assert_eq!(
            RegisterAuxvInfo::decode_with(expected, vec![AncillaryData(1)], order),
            Err(MessageError::UnexpectedAncillaryData)
        );
    }
    let (_, payload, ancillary) = message.encode();
    assert_eq!(RegisterAuxvInfo::decode(payload.to_vec(), ancillary), Ok(message));
}
