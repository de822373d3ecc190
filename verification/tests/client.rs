use pvaccess::client::{
    on_peer_closed, ClientConfig, ClientEngine, ClientSession, ClientState, Mode, UdpOutcome,
};
use pvaccess::error::{DecodeError, FrameError, ProtocolError};
use pvaccess::frame::frame_message;
use pvaccess::header::{Command, PvAccessHeader};
use pvaccess::messages::beacon::BeaconMessage;
use pvaccess::messages::validation::{ConnectionValidationRequest, ConnectionValidationResponse};
use pvaccess::session::{CloseReason, ServerSession, SessionOutput, SessionState};
use pvaccess::wire::map_ipv4;

fn config() -> ClientConfig {
    ClientConfig {
        udp_host: map_ipv4([127, 0, 0, 1]),
        udp_port: 5576,
        tcp_port: 5576,
        buffer_size: 105576,
        introspection_registry_max_size: 15576,
    }
}

fn beacon_datagram() -> Vec<u8> {
    let beacon = BeaconMessage::new(5576, [7; 16], [127, 0, 0, 1]);
    frame_message(&beacon, Command::Beacon, 0xC0).unwrap().to_bytes()
}

#[test]
fn client_bad_magic_is_skipped() {
    let mut c = ClientEngine::new();
    assert_eq!(c.mode, Mode::Udp);
    let mut datagram = beacon_datagram();
    datagram[0] = 0xAB;
    assert_eq!(c.on_datagram(&datagram), UdpOutcome::BadFrame(FrameError::InvalidMagic));
    assert_eq!(c.mode, Mode::Udp);
    assert_eq!(c.beacon, None);
    assert_eq!(c.connect_target(), None);
}

#[test]
fn client_switches_mode_on_a_beacon_and_back_on_a_failed_connect() {
    let mut c = ClientEngine::new();
    assert_eq!(c.on_datagram(&beacon_datagram()), UdpOutcome::Discovered);
    assert_eq!(c.mode, Mode::Tcp);
    let beacon = c.beacon.clone().unwrap();
    assert_eq!(beacon.server_port, 5576);
    assert_eq!(beacon.protocol, "tcp");
    assert_eq!(c.connect_target(), Some((map_ipv4([127, 0, 0, 1]), 5576)));
    c.on_connect_error();
    assert_eq!(c.mode, Mode::Udp);
    assert_eq!(c.connect_target(), None);
    assert_eq!(c.beacon, Some(beacon));
}

#[test]
fn client_skips_what_is_no_beacon() {
    let mut c = ClientEngine::new();
    let datagram = beacon_datagram();
    assert_eq!(c.on_datagram(&datagram[..5]), UdpOutcome::BadFrame(FrameError::ShortHeader));
    assert_eq!(
        c.on_datagram(&datagram[..20]),
        UdpOutcome::BadFrame(FrameError::PayloadTruncated)
    );
    assert_eq!(c.on_datagram(&[]), UdpOutcome::BadFrame(FrameError::ShortHeader));
    let echo = [0xCA, 2, 0x80, 0x02, 0, 0, 0, 2, 0, 0];
    assert_eq!(c.on_datagram(&echo), UdpOutcome::Ignored(Command::Echo));
    let unknown = [0xCA, 2, 0x80, 0x99, 0, 0, 0, 0];
    assert_eq!(c.on_datagram(&unknown), UdpOutcome::Ignored(Command::Unknown));
    let bad_beacon = [0xCA, 2, 0x80, 0x00, 0, 0, 0, 3, 1, 2, 3];
    assert_eq!(c.on_datagram(&bad_beacon), UdpOutcome::BadBeacon(DecodeError::Truncated));
    let mut bad_text = datagram.clone();
    bad_text[8 + 35] = 0xFF;
    assert_eq!(c.on_datagram(&bad_text), UdpOutcome::BadBeacon(DecodeError::MalformedString));
    assert_eq!(c.mode, Mode::Udp);
    assert_eq!(c.beacon, None);
}

#[test]
fn client_keeps_the_latest_beacon() {
    let mut c = ClientEngine::new();
    assert_eq!(c.on_datagram(&beacon_datagram()), UdpOutcome::Discovered);
    let mut second = BeaconMessage::new(6000, [8; 16], [10, 0, 0, 2]);
    second.beacon_sequence_id = 5;
    let datagram = frame_message(&second, Command::Beacon, 0x40).unwrap().to_bytes();
    assert_eq!(c.on_datagram(&datagram), UdpOutcome::Discovered);
    assert_eq!(c.connect_target(), Some((map_ipv4([10, 0, 0, 2]), 6000)));
    // A bad datagram in between changes nothing.
    assert_eq!(c.on_datagram(&[0xAB]), UdpOutcome::BadFrame(FrameError::ShortHeader));
    assert_eq!(
        c.on_datagram(&[0xAB, 2, 0x40, 0, 0, 0, 0, 0]),
        UdpOutcome::BadFrame(FrameError::InvalidMagic)
    );
    assert_eq!(c.beacon, Some(second));
    assert_eq!(c.mode, Mode::Tcp);
}

#[test]
fn client_returns_to_udp_when_the_peer_closes() {
    let mut c = ClientEngine::new();
    c.on_datagram(&beacon_datagram());
    let mut s = ClientSession::connected();
    assert_eq!(c.mode, Mode::Tcp);
    on_peer_closed(&mut c, &mut s);
    assert_eq!(c.mode, Mode::Udp);
    assert_eq!(s.state, ClientState::Closed);
    let mut s = ClientSession::connected();
    assert_eq!(s.on_eof(), SessionOutput::Close(CloseReason::PeerClosed));
    c.on_session_end();
    assert_eq!(c.mode, Mode::Udp);
}

#[test]
fn client_handshake_and_echo() {
    let mut s = ClientSession::connected();
    assert_eq!(s.state, ClientState::AwaitValidationRequest);
    let request = ServerSession::validation_request(105576, 15576, vec![]).unwrap();
    let reply = match s.on_frame(&request.header, &request.payload, &config()) {
        SessionOutput::Reply(frame) => frame,
        other => panic!("no reply: {other:?}"),
    };
    assert_eq!(s.state, ClientState::Active);
    assert_eq!(reply.header.message_command, Command::ConnectionValidation);
    assert_eq!(reply.header.flags.bits(), 0x80);
    let response = ConnectionValidationResponse::from_bytes(&reply.payload, true).unwrap();
    assert_eq!(response.client_receive_buffer_size, 105576);
    assert_eq!(response.client_introspection_registry_max_size, 15576);
    assert_eq!(response.connection_qos.priority_level(), 0);
    assert_eq!(response.connection_qos.bits(), 0);
    assert_eq!(response.auth_nz, "");

    // The server takes the response and stays silent.
    let mut server = ServerSession::accept();
    assert_eq!(server.on_frame(&reply.header, &reply.payload), SessionOutput::Idle);
    assert_eq!(server.state(), SessionState::Active);

    // An echo of the server is answered with its payload.
    let h = PvAccessHeader::new(0xC0, Command::Echo, 4);
    match s.on_frame(&h, &[0, 2, 5, 6], &config()) {
        SessionOutput::Reply(frame) => {
            assert_eq!(frame.payload, vec![0, 2, 5, 6]);
            assert_eq!(frame.header.flags.bits(), 0x80);
            assert_eq!(frame.header.message_command, Command::Echo);
        }
        other => panic!("no reply: {other:?}"),
    }
    let h = PvAccessHeader::new(0xC0, Command::ChannelGet, 0);
    assert_eq!(s.on_frame(&h, &[], &config()), SessionOutput::Idle);
    assert_eq!(s.state, ClientState::Active);
}

#[test]
fn client_handshake_failures() {
    let mut s = ClientSession::connected();
    let h = PvAccessHeader::new(0xC0, Command::Echo, 2);
    assert_eq!(
        s.on_frame(&h, &[0, 0], &config()),
        SessionOutput::Close(CloseReason::Protocol(ProtocolError::UnexpectedCommand))
    );
    assert_eq!(s.state, ClientState::Closed);
    assert_eq!(s.on_frame(&h, &[0, 0], &config()), SessionOutput::Idle);

    let mut s = ClientSession::connected();
    let h = PvAccessHeader::new(0xC0, Command::ConnectionValidation, 2);
    assert_eq!(
        s.on_frame(&h, &[0, 0], &config()),
        SessionOutput::Close(CloseReason::Decode(DecodeError::Truncated))
    );

    let mut s = ClientSession::connected();
    let body = ConnectionValidationRequest::new(1, 1, vec![]).to_bytes(true).unwrap();
    let h = PvAccessHeader::new(0xC0, Command::ConnectionValidation, body.len() as u32);
    let mut negative = config();
    negative.introspection_registry_max_size = -1;
    assert_eq!(negative.registry_max_size(), None);
    assert_eq!(config().registry_max_size(), Some(15576));
    assert_eq!(
        s.on_frame(&h, &body, &negative),
        SessionOutput::Close(CloseReason::InvalidConfig)
    );
    assert_eq!(s.state, ClientState::Closed);

    let mut s = ClientSession::connected();
    s.on_frame(&h, &body, &config());
    let h = PvAccessHeader::new(0xC0, Command::Echo, 1);
    assert_eq!(
        s.on_frame(&h, &[9], &config()),
        SessionOutput::Close(CloseReason::Decode(DecodeError::Truncated))
    );
    assert_eq!(s.state, ClientState::Closed);
}

#[test]
fn client_connects_over_tcp_only() {
    let mut c = ClientEngine::new();
    let mut beacon = BeaconMessage::new(5576, [7; 16], [127, 0, 0, 1]);
    beacon.protocol = "udp".to_string();
    let datagram = frame_message(&beacon, Command::Beacon, 0xC0).unwrap().to_bytes();
    assert_eq!(c.on_datagram(&datagram), UdpOutcome::Discovered);
    assert_eq!(c.mode, Mode::Tcp);
    assert_eq!(c.connect_target(), None);
}
