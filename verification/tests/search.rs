use pvaccess::error::{DecodeError, EncodeError};
use pvaccess::messages::search::{SearchRequest, SearchResponse};

fn request() -> SearchRequest {
    SearchRequest {
        search_sequence_id: 0x0102_0304,
        flags: 0x81,
        response_address: [0, 0, 0, 0, 0, 0, 0, 0, 0, 0, 0xFF, 0xFF, 192, 168, 1, 7],
        response_port: 5076,
        protocols: vec!["tcp".to_string()],
        channels: vec![(1, "temperature".to_string()), (0xFFFF_FFFF, "x".to_string())],
    }
}

#[test]
fn search_request_exact_bytes() {
    let bytes = request().to_bytes(true).unwrap();
    let mut expected = vec![1, 2, 3, 4, 0x81, 0, 0, 0];
    expected.extend_from_slice(&[0, 0, 0, 0, 0, 0, 0, 0, 0, 0, 0xFF, 0xFF, 192, 168, 1, 7]);
    expected.extend_from_slice(&[0x13, 0xD4]);
    expected.extend_from_slice(&[1, 3, b't', b'c', b'p']);
    expected.extend_from_slice(&[0, 2]);
    expected.extend_from_slice(&[0, 0, 0, 1, 11]);
    expected.extend_from_slice(b"temperature");
    expected.extend_from_slice(&[0xFF, 0xFF, 0xFF, 0xFF, 1, b'x']);
    assert_eq!(bytes, expected);
}

#[test]
fn search_request_round_trip() {
    let m = request();
    for big in [true, false] {
        let bytes = m.to_bytes(big).unwrap();
        assert_eq!(SearchRequest::from_bytes(&bytes, big).unwrap(), m);
    }
    let empty = SearchRequest {
        search_sequence_id: 0,
        flags: 0,
        response_address: [0; 16],
        response_port: 0,
        protocols: vec![],
        channels: vec![],
    };
    let bytes = empty.to_bytes(false).unwrap();
    assert_eq!(bytes.len(), 29);
    assert_eq!(SearchRequest::from_bytes(&bytes, false).unwrap(), empty);
}

#[test]
fn search_request_reserved_bytes_are_not_looked_at() {
    let mut bytes = request().to_bytes(true).unwrap();
    bytes[5] = 9;
    bytes[6] = 8;
    bytes[7] = 7;
    assert_eq!(SearchRequest::from_bytes(&bytes, true).unwrap(), request());
}

#[test]
fn search_request_errors() {
    let bytes = request().to_bytes(true).unwrap();
    for cut in [0, 10, 26, 27, 30, 33, 40, bytes.len() - 1] {
        assert_eq!(
            SearchRequest::from_bytes(&bytes[..cut], true),
            Err(DecodeError::Truncated),
            "cut at {cut}"
        );
    }
    let mut long = bytes.clone();
    long.push(0);
    assert_eq!(SearchRequest::from_bytes(&long, true), Err(DecodeError::TrailingBytes));
    let mut bad = bytes.clone();
    bad[28] = 0xFF;
    assert_eq!(SearchRequest::from_bytes(&bad, true), Err(DecodeError::MalformedString));
    let mut m = request();
    m.channels = vec![(1, "c".repeat(256))];
    assert_eq!(m.to_bytes(true), Err(EncodeError::FieldTooLong));
    let mut m = request();
    m.protocols = vec!["p".to_string(); 256];
    assert_eq!(m.to_bytes(true), Err(EncodeError::FieldTooLong));
    let mut m = request();
    m.channels = vec![(7, "c".to_string()); 0x1_0000];
    assert_eq!(m.to_bytes(true), Err(EncodeError::FieldTooLong));
}

fn response() -> SearchResponse {
    SearchResponse {
        guid: [1, 2, 3, 4, 5, 6, 7, 8, 9, 10, 11, 12],
        search_sequence_id: 77,
        server_address: [0, 0, 0, 0, 0, 0, 0, 0, 0, 0, 0xFF, 0xFF, 127, 0, 0, 1],
        server_port: 5075,
        protocol: "tcp".to_string(),
        found: true,
        search_instance_ids: vec![1, 0x0A0B_0C0D],
    }
}

#[test]
fn search_response_exact_bytes() {
    let bytes = response().to_bytes(false).unwrap();
    let mut expected = vec![1, 2, 3, 4, 5, 6, 7, 8, 9, 10, 11, 12];
    expected.extend_from_slice(&[77, 0, 0, 0]);
    expected.extend_from_slice(&[0, 0, 0, 0, 0, 0, 0, 0, 0, 0, 0xFF, 0xFF, 127, 0, 0, 1]);
    expected.extend_from_slice(&[0xD3, 0x13]);
    expected.extend_from_slice(&[3, b't', b'c', b'p']);
    expected.push(1);
    expected.extend_from_slice(&[2, 0]);
    expected.extend_from_slice(&[1, 0, 0, 0, 0x0D, 0x0C, 0x0B, 0x0A]);
    assert_eq!(bytes, expected);
}

#[test]
fn search_response_round_trip() {
    let m = response();
    for big in [true, false] {
        let bytes = m.to_bytes(big).unwrap();
        assert_eq!(SearchResponse::from_bytes(&bytes, big).unwrap(), m);
    }
    let mut none = response();
    none.found = false;
    none.search_instance_ids = vec![];
    let bytes = none.to_bytes(true).unwrap();
    assert_eq!(SearchResponse::from_bytes(&bytes, true).unwrap(), none);
}

#[test]
fn search_response_found_is_any_byte_but_zero() {
    let mut bytes = response().to_bytes(true).unwrap();
    assert_eq!(bytes[38], 1);
    bytes[38] = 0x55;
    assert!(SearchResponse::from_bytes(&bytes, true).unwrap().found);
    bytes[38] = 0;
    assert!(!SearchResponse::from_bytes(&bytes, true).unwrap().found);
}

#[test]
fn search_response_errors() {
    let bytes = response().to_bytes(true).unwrap();
    for cut in [0, 33, 34, 37, 38, 40, 44, bytes.len() - 1] {
        assert_eq!(
            SearchResponse::from_bytes(&bytes[..cut], true),
            Err(DecodeError::Truncated),
            "cut at {cut}"
        );
    }
    let mut long = bytes.clone();
    long.push(0);
    assert_eq!(SearchResponse::from_bytes(&long, true), Err(DecodeError::TrailingBytes));
    let mut m = response();
    m.protocol = "p".repeat(300);
    assert_eq!(m.to_bytes(true), Err(EncodeError::FieldTooLong));
    let mut m = response();
    m.search_instance_ids = vec![0; 0x1_0000];
    assert_eq!(m.to_bytes(true), Err(EncodeError::FieldTooLong));
}
