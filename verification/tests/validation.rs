use pvaccess::error::{DecodeError, EncodeError};
use pvaccess::messages::validation::{
    ConnectionQoS, ConnectionValidationRequest, ConnectionValidationResponse,
};

#[test]
fn validation_request_round_trip() {
    let m = ConnectionValidationRequest::new(
        105576,
        0x1234,
        vec!["anonymous".to_string(), "ca".to_string()],
    );
    let big = m.to_bytes(true).unwrap();
    assert_eq!(&big[..7], &[0x00, 0x01, 0x9C, 0x68, 0x12, 0x34, 2]);
    assert_eq!(big[7], 9);
    assert_eq!(&big[8..17], b"anonymous");
    assert_eq!(&big[17..], &[2, b'c', b'a']);
    assert_eq!(ConnectionValidationRequest::from_bytes(&big, true).unwrap(), m);
    let little = m.to_bytes(false).unwrap();
    assert_eq!(&little[..7], &[0x68, 0x9C, 0x01, 0x00, 0x34, 0x12, 2]);
    assert_eq!(ConnectionValidationRequest::from_bytes(&little, false).unwrap(), m);
}

#[test]
fn validation_request_without_mechanisms() {
    let m = ConnectionValidationRequest::new(105576, 0, vec![]);
    let bytes = m.to_bytes(true).unwrap();
    assert_eq!(bytes, vec![0x00, 0x01, 0x9C, 0x68, 0, 0, 0]);
    assert_eq!(ConnectionValidationRequest::from_bytes(&bytes, true).unwrap(), m);
}

#[test]
fn validation_request_decode_errors() {
    assert_eq!(
        ConnectionValidationRequest::from_bytes(&[0, 0, 0, 1, 0, 1], true),
        Err(DecodeError::Truncated)
    );
    assert_eq!(
        ConnectionValidationRequest::from_bytes(&[0, 0, 0, 1, 0, 1, 1], true),
        Err(DecodeError::Truncated)
    );
    assert_eq!(
        ConnectionValidationRequest::from_bytes(&[0, 0, 0, 1, 0, 1, 1, 2, b'a'], true),
        Err(DecodeError::Truncated)
    );
    assert_eq!(
        ConnectionValidationRequest::from_bytes(&[0, 0, 0, 1, 0, 1, 1, 1, 0xC0], true),
        Err(DecodeError::MalformedString)
    );
    assert_eq!(
        ConnectionValidationRequest::from_bytes(&[0, 0, 0, 1, 0, 1, 0, 9], true),
        Err(DecodeError::TrailingBytes)
    );
}

#[test]
fn validation_request_too_long() {
    let m = ConnectionValidationRequest::new(1, 1, vec!["m".to_string(); 256]);
    assert_eq!(m.to_bytes(true), Err(EncodeError::FieldTooLong));
    let m = ConnectionValidationRequest::new(1, 1, vec!["m".repeat(256)]);
    assert_eq!(m.to_bytes(true), Err(EncodeError::FieldTooLong));
    let m = ConnectionValidationRequest::new(1, 1, vec!["m".to_string(); 255]);
    let bytes = m.to_bytes(false).unwrap();
    assert_eq!(bytes.len(), 7 + 2 * 255);
    assert_eq!(ConnectionValidationRequest::from_bytes(&bytes, false).unwrap(), m);
}

#[test]
fn validation_response_round_trip() {
    let qos = ConnectionQoS::with_priority(42).union(ConnectionQoS::LOW_LATENCY);
    let m = ConnectionValidationResponse::new(105576, 15576, qos, "ca".to_string());
    let big = m.to_bytes(true).unwrap();
    assert_eq!(big, vec![0x00, 0x01, 0x9C, 0x68, 0x3C, 0xD8, 0x01, 0x2A, 2, b'c', b'a']);
    assert_eq!(ConnectionValidationResponse::from_bytes(&big, true).unwrap(), m);
    let little = m.to_bytes(false).unwrap();
    assert_eq!(little, vec![0x68, 0x9C, 0x01, 0x00, 0xD8, 0x3C, 0x2A, 0x01, 2, b'c', b'a']);
    assert_eq!(ConnectionValidationResponse::from_bytes(&little, false).unwrap(), m);
}

#[test]
fn validation_response_rejects_undefined_qos_bits() {
    for bad in [0x0080u16, 0x0800, 0x1000, 0x8000, 0xFFFF] {
        let bytes = [0, 0, 0, 1, 0, 1, (bad >> 8) as u8, bad as u8, 0];
        assert_eq!(
            ConnectionValidationResponse::from_bytes(&bytes, true),
            Err(DecodeError::InvalidQos)
        );
    }
    let bytes = [0, 0, 0, 1, 0, 1, 0x07, 0x7F, 0];
    let m = ConnectionValidationResponse::from_bytes(&bytes, true).unwrap();
    assert_eq!(m.connection_qos.bits(), 0x077F);
    assert_eq!(m.connection_qos.priority_level(), 127);
    assert!(m.connection_qos.contains(ConnectionQoS::THROUGHPUT));
    assert!(m.connection_qos.contains(ConnectionQoS::ENABLE_COMPRESSION));
    // The quality of service is looked at before the mechanism name.
    let bytes = [0, 0, 0, 1, 0, 1, 0x80, 0x00];
    assert_eq!(
        ConnectionValidationResponse::from_bytes(&bytes, true),
        Err(DecodeError::InvalidQos)
    );
}

#[test]
fn validation_response_decode_errors() {
    assert_eq!(
        ConnectionValidationResponse::from_bytes(&[0; 7], true),
        Err(DecodeError::Truncated)
    );
    assert_eq!(
        ConnectionValidationResponse::from_bytes(&[0; 8], true),
        Err(DecodeError::Truncated)
    );
    assert_eq!(
        ConnectionValidationResponse::from_bytes(&[0, 0, 0, 0, 0, 0, 0, 0, 0, 1], true),
        Err(DecodeError::TrailingBytes)
    );
    assert_eq!(
        ConnectionValidationResponse::from_bytes(&[0, 0, 0, 0, 0, 0, 0, 0, 1, 0xFF], true),
        Err(DecodeError::MalformedString)
    );
    let m = ConnectionValidationResponse::new(1, 1, ConnectionQoS::empty(), "x".repeat(256));
    assert_eq!(m.to_bytes(true), Err(EncodeError::FieldTooLong));
}

#[test]
fn qos_priority() {
    assert_eq!(ConnectionQoS::with_priority(0).bits(), 0);
    assert_eq!(ConnectionQoS::with_priority(100).priority_level(), 100);
    assert_eq!(ConnectionQoS::with_priority(100).bits(), 100);
    assert_eq!(ConnectionQoS::with_priority(200).bits(), 200 & 0x7F);
    assert_eq!(ConnectionQoS::from_bits(0x0100).unwrap().priority_level(), 0);
    assert_eq!(ConnectionQoS::from_bits(0x0080), None);
    assert_eq!(ConnectionQoS::from_bits_truncate(0xFFFF).bits(), 0x077F);
    assert_eq!(ConnectionQoS::DEFAULT_PRIORITY, 0);
    assert_eq!(ConnectionQoS::PRIORITY_MASK, 0x7F);
}
