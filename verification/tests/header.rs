use pvaccess::add;
use pvaccess::error::FrameError;
use pvaccess::flags::{PvHeaderFlags, Segment};
use pvaccess::header::{Command, PvAccessHeader};

#[test]
fn lib_it_works() {
    let result = add(2, 2);
    assert_eq!(result, 4);
}

#[test]
fn it_works() {
    let result = add(2, 2);
    assert_eq!(result, 4);
}

#[test]
fn test_header_creation() {
    let header = PvAccessHeader::new(0b0100_0000, Command::Beacon, 1234);
    assert_eq!(header.magic, 0xCA);
    assert_eq!(header.version, 2);
    assert_eq!(header.flags, PvHeaderFlags::from_bits_truncate(0b0100_0000));
    assert_eq!(header.message_command, Command::Beacon);
    assert_eq!(header.payload_size, 1234);
}

#[test]
fn header_test_header_serialization() {
    let header = PvAccessHeader::new(0b0100_0000, Command::Beacon, 1234);
    let bytes = header.to_bytes();
    let parsed_header = PvAccessHeader::from_bytes(&bytes).unwrap();
    assert_eq!(header.magic, parsed_header.magic);
    assert_eq!(header.version, parsed_header.version);
    assert_eq!(header.flags, parsed_header.flags);
    assert_eq!(header.message_command, parsed_header.message_command);
    assert_eq!(header.payload_size, parsed_header.payload_size);
}

#[test]
fn with_pvaccess_test_header_serialization() {
    let header = PvAccessHeader::new(0b0100_0000, Command::from_byte(5), 1234);
    let bytes = header.to_bytes();
    let parsed_header = PvAccessHeader::from_bytes(&bytes).unwrap();
    assert_eq!(header.magic, parsed_header.magic);
    assert_eq!(header.version, parsed_header.version);
    assert_eq!(header.flags, parsed_header.flags);
    assert_eq!(header.message_command, parsed_header.message_command);
    assert_eq!(header.payload_size, parsed_header.payload_size);
}

#[test]
fn test_header_serialization() {
    let header = PvAccessHeader::new(0b0100_0000, Command::from_byte(5), 1234);
    let bytes = header.to_bytes();
    let parsed_header = PvAccessHeader::from_bytes(&bytes).unwrap();
    assert_eq!(header.magic, parsed_header.magic);
    assert_eq!(header.version, parsed_header.version);
    assert_eq!(header.flags, parsed_header.flags);
    assert_eq!(header.message_command, parsed_header.message_command);
    assert_eq!(header.payload_size, parsed_header.payload_size);
}

#[test]
fn test_from_bytes_correct() {
    let bytes = [
        202, 2, 0, 0, 27, 0, 0, 0, 247, 42, 160, 206, 226, 127, 65, 190, 187, 51, 137, 1, 0, 2,
        0, 0, 127, 0, 0, 1, 21, 200, 3, 116, 99, 112, 0,
    ];
    let h = PvAccessHeader::from_bytes(&bytes[..PvAccessHeader::LEN]).unwrap();
    assert_eq!(h.magic, 0xCA)
}

#[test]
fn test_pv_header_flags() {
    let flags = PvHeaderFlags::from_bits_truncate(
        PvHeaderFlags::FROM_SERVER | PvHeaderFlags::BIG_ENDIAN | PvHeaderFlags::SEGMENT_NONE,
    );
    assert!(flags.contains(PvHeaderFlags::FROM_SERVER));
    assert!(flags.contains(PvHeaderFlags::BIG_ENDIAN));
    assert!(!flags.contains(PvHeaderFlags::CONTROL_MSG));
}

#[test]
fn header_round_trip_of_little_endian_beacon_header() {
    let bytes = [0xCA, 0x02, 0x00, 0x00, 0x1B, 0x00, 0x00, 0x00];
    let h = PvAccessHeader::from_bytes(&bytes).unwrap();
    assert_eq!(h.magic, 0xCA);
    assert_eq!(h.version, 2);
    assert_eq!(h.flags.bits(), 0);
    assert_eq!(h.message_command, Command::Beacon);
    assert_eq!(h.payload_size, 27);
    assert!(!h.is_big_endian());
    assert_eq!(h.to_bytes(), bytes.to_vec());
}

#[test]
fn header_payload_size_follows_bit_seven() {
    let big = [0xCA, 0x02, 0x80, 0x02, 0x00, 0x00, 0x01, 0x02];
    let h = PvAccessHeader::from_bytes(&big).unwrap();
    assert!(h.is_big_endian());
    assert_eq!(h.payload_size, 0x0102);
    assert_eq!(h.to_bytes(), big.to_vec());
    let little = [0xCA, 0x02, 0x00, 0x02, 0x00, 0x00, 0x01, 0x02];
    let h = PvAccessHeader::from_bytes(&little).unwrap();
    assert!(!h.is_big_endian());
    assert_eq!(h.payload_size, 0x0201_0000);
    assert_eq!(h.to_bytes(), little.to_vec());
}

#[test]
fn header_wrong_magic_is_rejected_at_once() {
    assert_eq!(
        PvAccessHeader::from_bytes(&[0xAB, 2, 0, 0, 0, 0, 0, 0]),
        Err(FrameError::InvalidMagic)
    );
    assert_eq!(PvAccessHeader::from_bytes(&[0xAB]), Err(FrameError::InvalidMagic));
    assert_eq!(PvAccessHeader::from_bytes(&[0xCA, 2, 0]), Err(FrameError::ShortHeader));
    assert_eq!(PvAccessHeader::from_bytes(&[]), Err(FrameError::ShortHeader));
}

#[test]
fn header_unknown_command_decodes() {
    let h = PvAccessHeader::from_bytes(&[0xCA, 2, 0, 0x77, 0, 0, 0, 0]).unwrap();
    assert_eq!(h.message_command, Command::Unknown);
    assert_eq!(Command::Unknown.code(), 0xFF);
}

#[test]
fn header_commands_have_their_codes() {
    let table: [(u8, Command); 18] = [
        (0x00, Command::Beacon),
        (0x01, Command::ConnectionValidation),
        (0x02, Command::Echo),
        (0x03, Command::Search),
        (0x04, Command::SearchResponse),
        (0x07, Command::CreateChannel),
        (0x08, Command::DestroyChannel),
        (0x0A, Command::ChannelGet),
        (0x0B, Command::ChannelPut),
        (0x0C, Command::ChannelPutGet),
        (0x0D, Command::ChannelMonitor),
        (0x0E, Command::ChannelArray),
        (0x0F, Command::DestroyRequest),
        (0x10, Command::ChannelProcess),
        (0x11, Command::GetField),
        (0x12, Command::Message),
        (0x14, Command::ChannelRpc),
        (0x15, Command::CancelRequest),
    ];
    for (byte, command) in table {
        assert_eq!(Command::from_byte(byte), command);
        assert_eq!(command.code(), byte);
    }
    for byte in [0x05u8, 0x06, 0x09, 0x13, 0x16, 0xFF] {
        assert_eq!(Command::from_byte(byte), Command::Unknown);
    }
}

#[test]
fn header_predicates_read_the_flags() {
    let h = PvAccessHeader::new(0x00, Command::Echo, 0);
    assert!(!h.is_segmented());
    assert!(!h.is_server_message());
    assert!(!h.is_big_endian());
    let h = PvAccessHeader::new(0x10 | 0x40 | 0x80, Command::Echo, 0);
    assert!(h.is_segmented());
    assert!(h.is_server_message());
    assert!(h.is_from_server());
    assert!(h.is_big_endian());
    assert_eq!(h.flags.segmentation(), Segment::First);
    assert_eq!(PvHeaderFlags::from_bits_truncate(0x20).segmentation(), Segment::Last);
    assert_eq!(PvHeaderFlags::from_bits_truncate(0x30).segmentation(), Segment::Middle);
    assert_eq!(PvHeaderFlags::from_bits_truncate(0x00).segmentation(), Segment::Whole);
}

#[test]
fn header_reserved_flag_bits_are_dropped() {
    assert_eq!(PvHeaderFlags::from_bits_truncate(0xFF).bits(), 0xF1);
    assert_eq!(PvHeaderFlags::from_bits(0x02), None);
    assert_eq!(PvHeaderFlags::from_bits(0xC1).unwrap().bits(), 0xC1);
    assert_eq!(PvHeaderFlags::empty().union(0x8E).bits(), 0x80);
    assert!(PvHeaderFlags::from_bits_truncate(0x01).is_control());
}

#[test]
fn header_unknown_command_is_reported_to_be_skipped() {
    let h = PvAccessHeader::from_bytes(&[0xCA, 2, 0, 0x77, 0, 0, 0, 0]).unwrap();
    assert_eq!(h.known_command(), Err(FrameError::UnknownCommand));
    let h = PvAccessHeader::from_bytes(&[0xCA, 2, 0, 0x02, 0, 0, 0, 0]).unwrap();
    assert_eq!(h.known_command(), Ok(Command::Echo));
}
