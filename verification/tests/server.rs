use pvaccess::handlers::{AdminHandler, ChannelHandler, CorePvAccessHandler, ProtocolServer};
use pvaccess::header::{Command, PvAccessHeader};
use pvaccess::messages::admin::{DestroyRequest, PvMessage, PvMessageType};
use pvaccess::messages::beacon::BeaconMessage;
use pvaccess::messages::channel::{
    ChannelInit, CreateChannelRequest, CreateChannelResponse, DestroyChannelRequest,
    DestroyChannelResponse,
};
use pvaccess::messages::echo::EchoMessage;
use pvaccess::messages::search::SearchRequest;
use pvaccess::messages::status::ResponseCompletionStatusEnum;
use pvaccess::messages::validation::{ConnectionQoS, ConnectionValidationResponse};
use pvaccess::error::{DecodeError, ProtocolError};
use pvaccess::frame::Reassembler;
use pvaccess::server::PVAccessServer;
use pvaccess::session::{CloseReason, Handler, ServerSession, SessionState};
use pvaccess::wire::map_ipv4;

fn server() -> PVAccessServer {
    PVAccessServer::new([5; 12], [192, 168, 1, 100], 5076)
}

fn active() -> ServerSession {
    let mut s = ServerSession::accept();
    let body = ConnectionValidationResponse::new(1, 1, ConnectionQoS::empty(), String::new())
        .to_bytes(true)
        .unwrap();
    let h = PvAccessHeader::new(0x80, Command::ConnectionValidation, body.len() as u32);
    s.on_frame(&h, &body);
    s
}

#[test]
fn server_announces_itself() {
    let mut s = server();
    let body = s.discover_message();
    let beacon = BeaconMessage::from_bytes(&body, true).unwrap();
    assert_eq!(beacon.guid, [5; 12]);
    assert_eq!(beacon.server_address, map_ipv4([192, 168, 1, 100]));
    assert_eq!(beacon.server_port, 5076);
    assert_eq!(beacon.protocol, "tcp");
    assert_eq!(beacon.change_count, 0);
    assert!(s.create_channel("a", 0));
    assert_eq!(s.beacon(9).change_count, 1);
    assert_eq!(s.beacon(9).beacon_sequence_id, 9);
    let h = s.parse_header(&[0xCA, 2, 0, 0, 27, 0, 0, 0]).unwrap();
    assert_eq!(h.payload_size, 27);
}

#[test]
fn server_channels_by_name() {
    let mut s = server();
    assert!(s.create_channel("a", 0));
    assert!(!s.create_channel("a", 0));
    assert!(s.create_channel("b", 0));
    assert_eq!(s.list_channels(), vec!["a".to_string(), "b".to_string()]);
    assert!(s.channel_put("a", vec![1], 1));
    assert!(s.channel_put("a", vec![2], 2));
    assert!(!s.channel_put("zzz", vec![3], 3));
    assert_eq!(s.channel_get("a", 10), vec![vec![1], vec![2]]);
    assert_eq!(s.channel_get("a", 1), vec![vec![1]]);
    assert!(s.channel_get("b", 10).is_empty());
    assert!(s.channel_get("zzz", 10).is_empty());
    assert!(s.delete_channel("a"));
    assert!(!s.delete_channel("a"));
    assert_eq!(s.list_channels(), vec!["b".to_string()]);
    assert_eq!(s.registry.change_count(), 3);
}

#[test]
fn server_as_a_protocol_server() {
    fn run<S: ProtocolServer>(s: &mut S) -> Vec<String> {
        s.create_channel("x", 0);
        s.channel_put("x", vec![1, 2], 1);
        assert_eq!(s.channel_get("x", 5), vec![vec![1, 2]]);
        s.create_channel("y", 0);
        s.delete_channel("x");
        assert!(!s.discover_message().is_empty());
        s.list_channels()
    }
    assert_eq!(run(&mut server()), vec!["y".to_string()]);
}

#[test]
fn server_search() {
    let mut s = server();
    s.create_channel("temperature", 0);
    s.create_channel("pressure", 0);
    let request = SearchRequest {
        search_sequence_id: 42,
        flags: 1,
        response_address: [0; 16],
        response_port: 1,
        protocols: vec!["tcp".to_string()],
        channels: vec![
            (10, "pressure".to_string()),
            (11, "humidity".to_string()),
            (12, "temperature".to_string()),
            (13, "pressure".to_string()),
        ],
    };
    let response = CorePvAccessHandler::handle_search_request(&s, &request);
    assert_eq!(response.search_instance_ids, vec![10, 12, 13]);
    assert!(response.found);
    assert_eq!(response.search_sequence_id, 42);
    assert_eq!(response.guid, [5; 12]);
    assert_eq!(response.server_address, map_ipv4([192, 168, 1, 100]));
    assert_eq!(response.server_port, 5076);
    assert_eq!(response.protocol, "tcp");
    let none = SearchRequest { channels: vec![(1, "nope".to_string())], ..request };
    let response = s.handle_search_request(&none);
    assert!(!response.found);
    assert!(response.search_instance_ids.is_empty());
    let echo = CorePvAccessHandler::handle_echo(&s, &EchoMessage { random_bytes: vec![1] });
    assert_eq!(echo.repeated_bytes, vec![1]);
}

#[test]
fn server_creates_and_destroys_channels() {
    let mut s = server();
    let request = CreateChannelRequest {
        channels: vec![
            ChannelInit { client_channel_id: 100, channel_name: "a".to_string() },
            ChannelInit { client_channel_id: 101, channel_name: "b".to_string() },
            ChannelInit { client_channel_id: 102, channel_name: "a".to_string() },
        ],
    };
    let responses = ChannelHandler::handle_create(&mut s, &request, 5);
    assert_eq!(responses.len(), 3);
    let ids: Vec<(u32, u32)> =
        responses.iter().map(|r| (r.client_channel_id, r.server_channel_id)).collect();
    assert_eq!(ids, vec![(100, 0), (101, 1), (102, 0)]);
    for r in &responses {
        assert_eq!(r.status.response_type, ResponseCompletionStatusEnum::Success);
        assert_eq!(r.status.message, "ok");
    }
    assert_eq!(s.list_channels(), vec!["a".to_string(), "b".to_string()]);
    assert_eq!(s.registry.change_count(), 2);
    let destroy = DestroyChannelRequest { client_channel_id: 100, server_channel_id: 0 };
    let response = ChannelHandler::handle_destroy(&mut s, &destroy);
    assert_eq!(response, DestroyChannelResponse { client_channel_id: 100, server_channel_id: 0 });
    assert_eq!(s.list_channels(), vec!["b".to_string()]);
    assert_eq!(s.registry.change_count(), 3);
    s.handle_destroy(&destroy);
    assert_eq!(s.registry.change_count(), 3);
}

#[test]
fn server_dispatch_create_channel() {
    let mut s = server();
    let mut session = active();
    let request = CreateChannelRequest {
        channels: vec![
            ChannelInit { client_channel_id: 7, channel_name: "pv:one".to_string() },
            ChannelInit { client_channel_id: 8, channel_name: "pv:two".to_string() },
        ],
    };
    let body = request.to_bytes(false).unwrap();
    let h = PvAccessHeader::new(0x00, Command::CreateChannel, body.len() as u32);
    let out = s.dispatch(&mut session, &h, &body, 1);
    assert_eq!(out.close, None);
    assert_eq!(out.routed, None);
    assert_eq!(out.frames.len(), 2);
    for (k, frame) in out.frames.iter().enumerate() {
        assert_eq!(frame.header.message_command, Command::CreateChannel);
        assert_eq!(frame.header.flags.bits(), 0x40);
        assert_eq!(frame.header.payload_size as usize, frame.payload.len());
        let r = CreateChannelResponse::from_bytes(&frame.payload, false).unwrap();
        assert_eq!(r.client_channel_id, 7 + k as u32);
        assert_eq!(r.server_channel_id, k as u32);
        assert_eq!(r.status.response_type, ResponseCompletionStatusEnum::Success);
    }
    assert_eq!(s.list_channels(), vec!["pv:one".to_string(), "pv:two".to_string()]);

    let destroy = DestroyChannelRequest { client_channel_id: 7, server_channel_id: 0 };
    let body = destroy.to_bytes(true);
    let h = PvAccessHeader::new(0x80, Command::DestroyChannel, 8);
    let out = s.dispatch(&mut session, &h, &body, 2);
    assert_eq!(out.frames.len(), 1);
    assert_eq!(out.frames[0].payload, body);
    assert_eq!(out.frames[0].header.flags.bits(), 0xC0);
    assert_eq!(s.list_channels(), vec!["pv:two".to_string()]);
}

#[test]
fn server_dispatch_passes_the_engine_on() {
    let mut s = server();
    let mut session = active();
    let h = PvAccessHeader::new(0x80, Command::Echo, 4);
    let out = s.dispatch(&mut session, &h, &[0, 2, 1, 2], 0);
    assert_eq!(out.frames.len(), 1);
    assert_eq!(out.frames[0].payload, vec![0, 2, 1, 2]);
    let h = PvAccessHeader::new(0x80, Command::ChannelGet, 0);
    let out = s.dispatch(&mut session, &h, &[1, 2, 3], 0);
    assert!(out.frames.is_empty());
    assert_eq!(out.routed, Some(Handler::ChannelGet));
    assert_eq!(out.body, vec![1, 2, 3]);
    let h = PvAccessHeader::new(0x80, Command::Unknown, 0);
    let out = s.dispatch(&mut session, &h, &[], 0);
    assert!(out.frames.is_empty() && out.routed.is_none() && out.close.is_none());
    // A request that does not decode closes the session.
    let h = PvAccessHeader::new(0x80, Command::CreateChannel, 1);
    let out = s.dispatch(&mut session, &h, &[0], 0);
    assert_eq!(out.close, Some(CloseReason::Decode(DecodeError::Truncated)));
    assert_eq!(session.state(), SessionState::Closed);
    let mut session = active();
    let h = PvAccessHeader::new(0x80, Command::DestroyChannel, 9);
    let out = s.dispatch(&mut session, &h, &[0; 9], 0);
    assert_eq!(out.close, Some(CloseReason::Decode(DecodeError::TrailingBytes)));
    assert_eq!(session.state(), SessionState::Closed);
    let mut fresh = ServerSession::accept();
    let h = PvAccessHeader::new(0x80, Command::CreateChannel, 0);
    let out = s.dispatch(&mut fresh, &h, &[], 0);
    assert!(matches!(out.close, Some(CloseReason::Protocol(_))));
}

#[test]
fn server_admin_handlers_decode() {
    let s = server();
    let r = s.handle_destroy_request(&[0, 0, 0, 1, 0, 0, 0, 2], true).unwrap();
    assert_eq!(r, DestroyRequest::new(1, 2));
    assert_eq!(s.handle_destroy_request(&[0; 7], true), Err(DecodeError::Truncated));
    let m = PvMessage::new(3, PvMessageType::Warning, "careful".to_string());
    let body = m.to_bytes(false).unwrap();
    assert_eq!(s.handle_message(&body, false).unwrap(), m);
    assert!(s.handle_get_introspection_data(&[0; 9], true).is_ok());
    assert!(s.handle_channel_process(&[0, 0, 0, 1, 8, 0, 0, 0], true).is_ok());
}

#[test]
fn server_serves_a_segmented_request() {
    let mut s = server();
    let mut session = active();
    let mut segments = Reassembler::new();
    let request = CreateChannelRequest {
        channels: vec![ChannelInit { client_channel_id: 7, channel_name: "pv:one".to_string() }],
    };
    let body = request.to_bytes(true).unwrap();
    let (head, tail) = body.split_at(4);
    let first = PvAccessHeader::new(0x80 | 0x10, Command::CreateChannel, head.len() as u32);
    let last = PvAccessHeader::new(0x80 | 0x20, Command::CreateChannel, tail.len() as u32);
    let out = s.receive(&mut session, &mut segments, &first, head.to_vec(), 0);
    assert!(out.frames.is_empty() && out.close.is_none());
    assert!(segments.is_pending());
    assert!(s.list_channels().is_empty());
    let out = s.receive(&mut session, &mut segments, &last, tail.to_vec(), 0);
    assert_eq!(out.frames.len(), 1);
    assert_eq!(s.list_channels(), vec!["pv:one".to_string()]);
    assert!(!segments.is_pending());
    // A whole frame is served at once.
    let h = PvAccessHeader::new(0x80, Command::Echo, 3);
    let out = s.receive(&mut session, &mut segments, &h, vec![0, 1, 9], 0);
    assert_eq!(out.frames[0].payload, vec![0, 1, 9]);
    // A segment out of turn closes the session.
    let out = s.receive(&mut session, &mut segments, &last, vec![], 0);
    assert_eq!(
        out.close,
        Some(CloseReason::Protocol(ProtocolError::SegmentationViolation))
    );
    assert_eq!(session.state(), SessionState::Closed);
}
