use pvaccess::error::{DecodeError, EncodeError};
use pvaccess::frame::frame_message;
use pvaccess::header::Command;
use pvaccess::messages::channel_data::{ChannelGetResponse, ChannelPutRequest};
use pvaccess::messages::admin::{
    ChannelGetFieldRequest, ChannelProceesResponseInit, ChannelProcessRequestInit,
    DestroyRequest, PvMessage, PvMessageType,
};
use pvaccess::messages::channel::{
    ChannelGetRequest, ChannelInit, CreateChannelRequest, CreateChannelResponse,
    DestroyChannelRequest, DestroyChannelResponse, SUBCOMMAND_DESTROY, SUBCOMMAND_GET,
    SUBCOMMAND_INIT,
};
use pvaccess::messages::channel_init::{
    ChannelGetRequestInit, ChannelGetResponseInit, ChannelMonitorRequestInit,
    ChannelMonitorResponseInit, ChannelPutRequestInit, ChannelPutResponse,
    ChannelPutResponseInit,
};
use pvaccess::messages::status::{ResponseCompletionStatus, ResponseCompletionStatusEnum};

fn status(kind: ResponseCompletionStatusEnum, tree: Option<&str>) -> ResponseCompletionStatus {
    ResponseCompletionStatus {
        response_type: kind,
        message: "m".to_string(),
        call_tree: tree.map(|t| t.to_string()),
    }
}

#[test]
fn channel_request_round_trip() {
    let m = ChannelGetRequest { server_channel_id: 1, request_id: 0x0A0B0C0D, subcommand: 0x48 };
    assert_eq!(m.to_bytes(true), vec![0, 0, 0, 1, 0x0A, 0x0B, 0x0C, 0x0D, 0x48]);
    assert_eq!(m.to_bytes(false), vec![1, 0, 0, 0, 0x0D, 0x0C, 0x0B, 0x0A, 0x48]);
    assert_eq!(ChannelGetRequest::from_bytes(&m.to_bytes(true), true), Ok(m));
    assert_eq!(ChannelGetRequest::from_bytes(&m.to_bytes(false), false), Ok(m));
    assert!(m.is_init() && m.is_get() && !m.is_destroy());
    assert_eq!(SUBCOMMAND_INIT, 0x08);
    assert_eq!(SUBCOMMAND_DESTROY, 0x10);
    assert_eq!(SUBCOMMAND_GET, 0x40);
    assert_eq!(ChannelGetRequest::from_bytes(&[0; 8], true), Err(DecodeError::Truncated));
    assert_eq!(ChannelGetRequest::from_bytes(&[0; 10], true), Err(DecodeError::TrailingBytes));
}

#[test]
fn destroy_messages_round_trip() {
    let m = DestroyRequest::new(0x01020304, 5);
    assert_eq!(m.to_bytes(true), vec![1, 2, 3, 4, 0, 0, 0, 5]);
    assert_eq!(DestroyRequest::from_bytes(&m.to_bytes(false), false), Ok(m));
    assert_eq!(DestroyRequest::from_bytes(&[0; 9], true), Err(DecodeError::TrailingBytes));
    let m = DestroyChannelRequest { client_channel_id: 9, server_channel_id: 0x100 };
    assert_eq!(m.to_bytes(true), vec![0, 0, 0, 9, 0, 0, 1, 0]);
    assert_eq!(DestroyChannelRequest::from_bytes(&m.to_bytes(true), true), Ok(m));
    let r = DestroyChannelResponse::answering(&m);
    assert_eq!(r.to_bytes(false), vec![9, 0, 0, 0, 0, 1, 0, 0]);
    assert_eq!(DestroyChannelResponse::from_bytes(&r.to_bytes(false), false), Ok(r));
    assert_eq!(DestroyChannelResponse::from_bytes(&[0; 3], false), Err(DecodeError::Truncated));
}

#[test]
fn create_channel_round_trip() {
    let m = CreateChannelRequest {
        channels: vec![
            ChannelInit { client_channel_id: 1, channel_name: "a".to_string() },
            ChannelInit { client_channel_id: 2, channel_name: "bc".to_string() },
        ],
    };
    let bytes = m.to_bytes(true).unwrap();
    assert_eq!(bytes, vec![0, 2, 0, 0, 0, 1, 1, b'a', 0, 0, 0, 2, 2, b'b', b'c']);
    assert_eq!(CreateChannelRequest::from_bytes(&bytes, true).unwrap(), m);
    let bytes = m.to_bytes(false).unwrap();
    assert_eq!(CreateChannelRequest::from_bytes(&bytes, false).unwrap(), m);
    assert_eq!(CreateChannelRequest::from_bytes(&[0, 1], true), Err(DecodeError::Truncated));
    assert_eq!(CreateChannelRequest::from_bytes(&[0, 0, 1], true), Err(DecodeError::TrailingBytes));
    let long = CreateChannelRequest {
        channels: vec![ChannelInit { client_channel_id: 1, channel_name: "n".repeat(256) }],
    };
    assert_eq!(long.to_bytes(true), Err(EncodeError::FieldTooLong));

    let r = CreateChannelResponse {
        client_channel_id: 1,
        server_channel_id: 2,
        status: ResponseCompletionStatus::ok(),
    };
    let bytes = r.to_bytes(true).unwrap();
    assert_eq!(bytes, vec![0, 0, 0, 1, 0, 0, 0, 2, 0, 2, b'o', b'k', 0]);
    assert_eq!(CreateChannelResponse::from_bytes(&bytes, true).unwrap(), r);
    assert_eq!(
        CreateChannelResponse::from_bytes(&[0, 0, 0, 1, 0, 0, 0, 2, 9, 0, 0], true),
        Err(DecodeError::InvalidKind)
    );
}

#[test]
fn status_round_trip() {
    for kind in [
        ResponseCompletionStatusEnum::Success,
        ResponseCompletionStatusEnum::Warning,
        ResponseCompletionStatusEnum::Error,
        ResponseCompletionStatusEnum::FatalError,
    ] {
        for tree in [None, Some("at the top")] {
            let s = status(kind, tree);
            let mut out = vec![0xEE];
            assert!(s.is_encodable());
            s.put(&mut out);
            assert_eq!(out[1], kind.code());
            let (back, next) = ResponseCompletionStatus::read(&out, 1).unwrap();
            assert_eq!(back, s);
            assert_eq!(next, out.len());
        }
    }
    assert_eq!(ResponseCompletionStatusEnum::from_byte(4), None);
    assert_eq!(
        ResponseCompletionStatusEnum::from_byte(2),
        Some(ResponseCompletionStatusEnum::Error)
    );
    assert_eq!(
        ResponseCompletionStatus::read(&[0, 0, 2], 0),
        Err(DecodeError::InvalidKind)
    );
    assert_eq!(ResponseCompletionStatus::read(&[0, 0], 0), Err(DecodeError::Truncated));
    let e = ResponseCompletionStatus::error("bad".to_string());
    assert_eq!(e.response_type, ResponseCompletionStatusEnum::Error);
    assert!(!status(ResponseCompletionStatusEnum::Error, Some(&"t".repeat(256))).is_encodable());
    assert_eq!(ResponseCompletionStatus::exhausted().message, "no channel number left");
}

#[test]
fn init_requests_round_trip() {
    let g = ChannelGetRequestInit {
        server_channel_id: 1,
        request_id: 2,
        subcommand: SUBCOMMAND_INIT,
        pv_request_if: "if".to_string(),
        pv_request: "field(value)".to_string(),
    };
    let p = ChannelPutRequestInit {
        server_channel_id: 1,
        request_id: 2,
        subcommand: SUBCOMMAND_INIT,
        pv_request_if: "if".to_string(),
        pv_request: "field(value)".to_string(),
    };
    for big in [true, false] {
        let bytes = g.to_bytes(big).unwrap();
        assert_eq!(bytes, p.to_bytes(big).unwrap());
        assert_eq!(bytes.len(), 9 + 3 + 13);
        assert_eq!(ChannelGetRequestInit::from_bytes(&bytes, big).unwrap(), g);
        assert_eq!(ChannelPutRequestInit::from_bytes(&bytes, big).unwrap(), p);
    }
    assert_eq!(g.request().subcommand, SUBCOMMAND_INIT);
    let bytes = g.to_bytes(true).unwrap();
    assert_eq!(&bytes[..9], &[0, 0, 0, 1, 0, 0, 0, 2, 8]);
    assert_eq!(
        ChannelGetRequestInit::from_bytes(&bytes[..bytes.len() - 1], true),
        Err(DecodeError::Truncated)
    );
    for queue_size in [None, Some(0x01020304)] {
        let m = ChannelMonitorRequestInit {
            server_channel_id: 1,
            request_id: 2,
            subcommand: 0x88,
            pv_request_if: "".to_string(),
            pv_request: "x".to_string(),
            queue_size,
        };
        for big in [true, false] {
            let bytes = m.to_bytes(big).unwrap();
            assert_eq!(ChannelMonitorRequestInit::from_bytes(&bytes, big).unwrap(), m);
        }
    }
    let mut bad = g.to_bytes(true).unwrap();
    bad.push(2);
    assert_eq!(ChannelMonitorRequestInit::from_bytes(&bad, true), Err(DecodeError::InvalidKind));
    let long = ChannelGetRequestInit { pv_request: "r".repeat(256), ..g };
    assert_eq!(long.to_bytes(true), Err(EncodeError::FieldTooLong));
}

#[test]
fn init_responses_round_trip() {
    let s = status(ResponseCompletionStatusEnum::Warning, Some("tree"));
    let g = ChannelGetResponseInit {
        request_id: 5,
        subcommand: 8,
        status: s.clone(),
        pv_structure_if: "structure".to_string(),
    };
    for big in [true, false] {
        let bytes = g.to_bytes(big).unwrap();
        assert_eq!(ChannelGetResponseInit::from_bytes(&bytes, big).unwrap(), g);
    }
    for text in [None, Some("structure".to_string())] {
        let p = ChannelPutResponseInit {
            request_id: 5,
            subcommand: 8,
            status: s.clone(),
            pv_structure_if: text.clone(),
        };
        let m = ChannelMonitorResponseInit {
            request_id: 5,
            subcommand: 8,
            status: s.clone(),
            pv_structure_if: text,
        };
        for big in [true, false] {
            let bytes = p.to_bytes(big).unwrap();
            assert_eq!(bytes, m.to_bytes(big).unwrap());
            assert_eq!(ChannelPutResponseInit::from_bytes(&bytes, big).unwrap(), p);
            assert_eq!(ChannelMonitorResponseInit::from_bytes(&bytes, big).unwrap(), m);
        }
    }
    let absent = ChannelPutResponseInit {
        request_id: 5,
        subcommand: 8,
        status: s.clone(),
        pv_structure_if: None,
    };
    assert_eq!(
        ChannelGetResponseInit::from_bytes(&absent.to_bytes(true).unwrap(), true),
        Err(DecodeError::InvalidKind)
    );
    let r = ChannelPutResponse { request_id: 9, subcommand: 0, status: s };
    let bytes = r.to_bytes(false).unwrap();
    assert_eq!(&bytes[..6], &[9, 0, 0, 0, 0, 1]);
    assert_eq!(ChannelPutResponse::from_bytes(&bytes, false).unwrap(), r);
}

#[test]
fn admin_messages_round_trip() {
    let init = ChannelProcessRequestInit::new(1, 2);
    assert_eq!(init.subcommand, 0x08);
    assert_eq!(init.pv_request, None);
    assert_eq!(init.pv_request_if, None);
    let r = ChannelProceesResponseInit::new(7);
    assert_eq!(r.subcommand, 0x08);
    assert_eq!(r.status.response_type, ResponseCompletionStatusEnum::Success);
    assert_eq!(r.status.message, "ok");
    let bytes = r.to_bytes(true).unwrap();
    assert_eq!(bytes, vec![0, 0, 0, 7, 8, 0, 2, b'o', b'k', 0]);
    assert_eq!(ChannelProceesResponseInit::from_bytes(&bytes, true).unwrap(), r);

    let f = ChannelGetFieldRequest::new(1, 2);
    assert_eq!(f.subfield_name, "");
    let f = ChannelGetFieldRequest { subfield_name: "value".to_string(), ..f };
    let bytes = f.to_bytes(true).unwrap();
    assert_eq!(bytes, vec![0, 0, 0, 1, 0, 0, 0, 2, 5, b'v', b'a', b'l', b'u', b'e']);
    assert_eq!(ChannelGetFieldRequest::from_bytes(&bytes, true).unwrap(), f);
    assert_eq!(
        ChannelGetFieldRequest::from_bytes(&bytes[..10], true),
        Err(DecodeError::Truncated)
    );

    for (code, kind) in [
        (0u8, PvMessageType::Info),
        (1, PvMessageType::Warning),
        (2, PvMessageType::Error),
        (3, PvMessageType::FatalError),
    ] {
        let m = PvMessage::new(0x0102, kind, "hi".to_string());
        let bytes = m.to_bytes(true).unwrap();
        assert_eq!(bytes, vec![0, 0, 1, 2, code, 2, b'h', b'i']);
        assert_eq!(PvMessage::from_bytes(&bytes, true).unwrap(), m);
    }
    assert_eq!(
        PvMessage::from_bytes(&[0, 0, 0, 0, 4, 0], true),
        Err(DecodeError::InvalidKind)
    );
    assert_eq!(PvMessage::from_bytes(&[0, 0, 0, 0], true), Err(DecodeError::Truncated));
    let long = PvMessage::new(1, PvMessageType::Info, "x".repeat(256));
    assert_eq!(long.to_bytes(true), Err(EncodeError::FieldTooLong));
}

#[test]
fn data_messages_round_trip() {
    let put = ChannelPutRequest {
        server_channel_id: 1,
        request_id: 2,
        subcommand: 0,
        pv_structure_data: vec![9, 8, 7],
        to_put_bit_set: vec![0b0000_0101],
    };
    let bytes = put.to_bytes(true).unwrap();
    assert_eq!(bytes, vec![0, 0, 0, 1, 0, 0, 0, 2, 0, 0, 1, 5, 0, 3, 9, 8, 7]);
    assert_eq!(ChannelPutRequest::from_bytes(&bytes, true).unwrap(), put);
    let bytes = put.to_bytes(false).unwrap();
    assert_eq!(bytes, vec![1, 0, 0, 0, 2, 0, 0, 0, 0, 1, 0, 5, 3, 0, 9, 8, 7]);
    assert_eq!(ChannelPutRequest::from_bytes(&bytes, false).unwrap(), put);
    assert_eq!(
        ChannelPutRequest::from_bytes(&bytes[..bytes.len() - 1], false),
        Err(DecodeError::Truncated)
    );
    let long = ChannelPutRequest { pv_structure_data: vec![0; 0x1_0000], ..put.clone() };
    assert_eq!(long.to_bytes(true), Err(EncodeError::FieldTooLong));

    for bits in [None, Some(vec![0xFF, 0x01])] {
        let get = ChannelGetResponse {
            request_id: 3,
            subcommand: 0x40,
            status: ResponseCompletionStatus::ok(),
            changed_bit_set: bits,
            pv_structure_data: vec![1, 2],
        };
        for big in [true, false] {
            let bytes = get.to_bytes(big).unwrap();
            assert_eq!(ChannelGetResponse::from_bytes(&bytes, big).unwrap(), get);
        }
    }
    let get = ChannelGetResponse {
        request_id: 3,
        subcommand: 0x40,
        status: ResponseCompletionStatus::ok(),
        changed_bit_set: None,
        pv_structure_data: vec![],
    };
    assert_eq!(
        get.to_bytes(true).unwrap(),
        vec![0, 0, 0, 3, 0x40, 0, 2, b'o', b'k', 0, 0, 0, 0]
    );
    let mut bad = get.to_bytes(true).unwrap();
    bad[10] = 7;
    assert_eq!(ChannelGetResponse::from_bytes(&bad, true), Err(DecodeError::InvalidKind));
}

#[test]
fn every_message_goes_into_a_frame() {
    let m = PvMessage::new(1, PvMessageType::Error, "no".to_string());
    let frame = frame_message(&m, Command::Message, 0x40).unwrap();
    assert_eq!(frame.header.message_command.code(), 0x12);
    assert_eq!(frame.payload, m.to_bytes(false).unwrap());
    assert_eq!(frame.to_bytes().len(), 8 + frame.header.payload_size as usize);
    let d = DestroyRequest::new(1, 2);
    let frame = frame_message(&d, Command::DestroyRequest, 0x80).unwrap();
    assert_eq!(frame.payload, vec![0, 0, 0, 1, 0, 0, 0, 2]);
    let g = ChannelGetRequest { server_channel_id: 1, request_id: 2, subcommand: 0x40 };
    let frame = frame_message(&g, Command::ChannelGet, 0x00).unwrap();
    assert_eq!(frame.header.payload_size, 9);
}
