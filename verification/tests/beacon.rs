use pvaccess::error::{DecodeError, EncodeError};
use pvaccess::messages::beacon::BeaconMessage;
use pvaccess::wire::{map_ipv4, unmap_ipv4};

#[test]
fn test_crease_body_correctly() {
    let n = BeaconMessage {
        guid: [87, 186, 234, 203, 160, 226, 76, 60, 157, 167, 71, 104],
        flags: 0,
        beacon_sequence_id: 1,
        change_count: 0,
        server_address: map_ipv4([127, 0, 0, 1]),
        server_port: 5576,
        protocol: "tcp".to_string(),
        server_status_if: 0,
    };
    let bytes = n.to_bytes(true).unwrap();
    println!("{:?}", bytes);
    let beacon = BeaconMessage::from_bytes(&bytes, true).unwrap();
    assert_eq!(beacon.flags, 0);
    assert_eq!(beacon.beacon_sequence_id, 1);
}

const BODY: [u8; 39] = [
    0x36, 0x5F, 0x53, 0x96, 0x14, 0xA7, 0x45, 0x32, 0x8B, 0xB3, 0xE3, 0x0E, 0x00, 0x11, 0x00,
    0x00, 0x00, 0x00, 0x00, 0x00, 0x00, 0x00, 0x00, 0x00, 0x00, 0x00, 0xFF, 0xFF, 0x7F, 0x00,
    0x00, 0x01, 0x15, 0xC8, 0x03, 0x74, 0x63, 0x70, 0x00,
];

#[test]
fn beacon_decode_of_a_captured_body() {
    let b = BeaconMessage::from_bytes(&BODY, true).unwrap();
    assert_eq!(
        b.guid,
        [0x36, 0x5F, 0x53, 0x96, 0x14, 0xA7, 0x45, 0x32, 0x8B, 0xB3, 0xE3, 0x0E]
    );
    assert_eq!(b.flags, 0);
    assert_eq!(b.beacon_sequence_id, 17);
    assert_eq!(b.change_count, 0);
    assert_eq!(unmap_ipv4(&b.server_address), Some([127, 0, 0, 1]));
    assert_eq!(b.server_port, 5576);
    assert_eq!(b.protocol, "tcp");
    assert_eq!(b.server_status_if, 0);
    assert_eq!(b.to_bytes(true).unwrap(), BODY.to_vec());
}

#[test]
fn beacon_round_trip_in_both_byte_orders() {
    let b = BeaconMessage {
        guid: [1, 2, 3, 4, 5, 6, 7, 8, 9, 10, 11, 12],
        flags: 3,
        beacon_sequence_id: 255,
        change_count: 0x1234,
        server_address: [0x20, 1, 0, 0, 0, 0, 0, 0, 0, 0, 0, 0, 0, 0, 0, 9],
        server_port: 0xABCD,
        protocol: "tcp".to_string(),
        server_status_if: 7,
    };
    let big = b.to_bytes(true).unwrap();
    let little = b.to_bytes(false).unwrap();
    assert_eq!(big.len(), 39);
    assert_eq!(&big[14..16], &[0x12, 0x34]);
    assert_eq!(&little[14..16], &[0x34, 0x12]);
    assert_eq!(&big[32..34], &[0xAB, 0xCD]);
    assert_eq!(&little[32..34], &[0xCD, 0xAB]);
    assert_eq!(BeaconMessage::from_bytes(&big, true).unwrap(), b);
    assert_eq!(BeaconMessage::from_bytes(&little, false).unwrap(), b);
    assert_eq!(unmap_ipv4(&b.server_address), None);
}

#[test]
fn beacon_decode_errors() {
    assert_eq!(BeaconMessage::from_bytes(&BODY[..33], true), Err(DecodeError::Truncated));
    assert_eq!(BeaconMessage::from_bytes(&BODY[..36], true), Err(DecodeError::Truncated));
    assert_eq!(BeaconMessage::from_bytes(&BODY[..38], true), Err(DecodeError::Truncated));
    let mut long = BODY.to_vec();
    long.push(0);
    assert_eq!(BeaconMessage::from_bytes(&long, true), Err(DecodeError::TrailingBytes));
    let mut bad = BODY.to_vec();
    bad[35] = 0xFF;
    assert_eq!(BeaconMessage::from_bytes(&bad, true), Err(DecodeError::MalformedString));
}

#[test]
fn beacon_protocol_name_too_long() {
    let mut b = BeaconMessage::new(5576, [9; 16], [10, 0, 0, 1]);
    assert_eq!(b.guid, [9; 12]);
    assert_eq!(b.protocol, "tcp");
    assert_eq!(b.beacon_sequence_id, 0);
    assert_eq!(b.change_count, 0);
    assert_eq!(
        b.server_address,
        [0, 0, 0, 0, 0, 0, 0, 0, 0, 0, 0xFF, 0xFF, 10, 0, 0, 1]
    );
    b.protocol = "x".repeat(256);
    assert_eq!(b.to_bytes(true), Err(EncodeError::FieldTooLong));
    b.protocol = "x".repeat(255);
    let bytes = b.to_bytes(true).unwrap();
    assert_eq!(bytes.len(), 36 + 255);
    assert_eq!(BeaconMessage::from_bytes(&bytes, true).unwrap(), b);
}
