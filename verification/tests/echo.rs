use pvaccess::error::{DecodeError, EncodeError};
use pvaccess::messages::echo::{EchoMessage, EchoResponse};

#[test]
fn pv_echo_test_echo_message_serialization() {
    let message = EchoMessage { random_bytes: vec![1, 2, 3, 4, 5] };

    let bytes_le = message.to_bytes(false).unwrap();
    let parsed_le = EchoMessage::from_bytes(&bytes_le, false).unwrap();
    assert_eq!(message.random_bytes, parsed_le.random_bytes);

    let bytes_be = message.to_bytes(true).unwrap();
    let parsed_be = EchoMessage::from_bytes(&bytes_be, true).unwrap();
    assert_eq!(message.random_bytes, parsed_be.random_bytes);
}

#[test]
fn pv_echo_test_echo_response_serialization() {
    let response = EchoResponse { repeated_bytes: vec![9, 8, 7, 6, 5] };

    let bytes_le = response.to_bytes(false).unwrap();
    let parsed_le = EchoResponse::from_bytes(&bytes_le, false).unwrap();
    assert_eq!(response.repeated_bytes, parsed_le.repeated_bytes);

    let bytes_be = response.to_bytes(true).unwrap();
    let parsed_be = EchoResponse::from_bytes(&bytes_be, true).unwrap();
    assert_eq!(response.repeated_bytes, parsed_be.repeated_bytes);
}

#[test]
fn with_pvaccess_test_echo_message_serialization() {
    let message = EchoMessage { random_bytes: vec![1, 2, 3, 4, 5] };

    let bytes_le = message.to_bytes(false).unwrap();
    let parsed_le = EchoMessage::from_bytes(&bytes_le, false).unwrap();
    assert_eq!(message.random_bytes, parsed_le.random_bytes);

    let bytes_be = message.to_bytes(true).unwrap();
    let parsed_be = EchoMessage::from_bytes(&bytes_be, true).unwrap();
    assert_eq!(message.random_bytes, parsed_be.random_bytes);
}

#[test]
fn with_pvaccess_test_echo_response_serialization() {
    let response = EchoResponse { repeated_bytes: vec![9, 8, 7, 6, 5] };

    let bytes_le = response.to_bytes(false).unwrap();
    let parsed_le = EchoResponse::from_bytes(&bytes_le, false).unwrap();
    assert_eq!(response.repeated_bytes, parsed_le.repeated_bytes);

    let bytes_be = response.to_bytes(true).unwrap();
    let parsed_be = EchoResponse::from_bytes(&bytes_be, true).unwrap();
    assert_eq!(response.repeated_bytes, parsed_be.repeated_bytes);
}

#[test]
fn echo_body_has_its_length_in_front() {
    let message = EchoMessage { random_bytes: vec![1, 2, 3, 4, 5] };
    assert_eq!(message.to_bytes(true).unwrap(), vec![0, 5, 1, 2, 3, 4, 5]);
    assert_eq!(message.to_bytes(false).unwrap(), vec![5, 0, 1, 2, 3, 4, 5]);
    let response = EchoResponse::answering(&message);
    assert_eq!(response.repeated_bytes, vec![1, 2, 3, 4, 5]);
    assert_eq!(response.to_bytes(true).unwrap(), vec![0, 5, 1, 2, 3, 4, 5]);
}

#[test]
fn echo_decode_errors() {
    assert_eq!(EchoMessage::from_bytes(&[0], true), Err(DecodeError::Truncated));
    assert_eq!(EchoMessage::from_bytes(&[0, 3, 1, 2], true), Err(DecodeError::Truncated));
    assert_eq!(EchoMessage::from_bytes(&[0, 1, 1, 2], true), Err(DecodeError::TrailingBytes));
    assert_eq!(EchoResponse::from_bytes(&[], false), Err(DecodeError::Truncated));
    assert_eq!(
        EchoMessage::from_bytes(&[0, 0], true),
        Ok(EchoMessage { random_bytes: vec![] })
    );
}

#[test]
fn echo_payload_too_long_for_its_length() {
    let message = EchoMessage { random_bytes: vec![7; 0x1_0000] };
    assert_eq!(message.to_bytes(true), Err(EncodeError::FieldTooLong));
    let message = EchoMessage { random_bytes: vec![7; 0xFFFF] };
    let bytes = message.to_bytes(true).unwrap();
    assert_eq!(bytes.len(), 0xFFFF + 2);
    assert_eq!(&bytes[..2], &[0xFF, 0xFF]);
    assert_eq!(EchoMessage::from_bytes(&bytes, true).unwrap(), message);
}
