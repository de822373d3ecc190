use pvaccess::error::{DecodeError, EncodeError, FrameError, ProtocolError};
use pvaccess::frame::PvAccessDecoder;
use pvaccess::header::{Command, PvAccessHeader};
use pvaccess::messages::validation::{
    ConnectionQoS, ConnectionValidationRequest, ConnectionValidationResponse,
};
use pvaccess::session::{
    echo_reply, flags_for_reply, route, CloseReason, Handler, ServerSession, SessionCommand,
    SessionOutput, SessionState,
};

fn validation_response_body() -> Vec<u8> {
    ConnectionValidationResponse::new(105576, 15576, ConnectionQoS::with_priority(0), String::new())
        .to_bytes(true)
        .unwrap()
}

fn active() -> ServerSession {
    let mut s = ServerSession::accept();
    let body = validation_response_body();
    let h = PvAccessHeader::new(0x80, Command::ConnectionValidation, body.len() as u32);
    assert_eq!(s.on_frame(&h, &body), SessionOutput::Idle);
    s
}

#[test]
fn session_handshake() {
    let request = ServerSession::validation_request(105576, 15576, vec![]).unwrap();
    assert_eq!(request.header.message_command, Command::ConnectionValidation);
    assert_eq!(request.header.flags.bits(), 0xC0);
    assert_eq!(request.payload, vec![0x00, 0x01, 0x9C, 0x68, 0x3C, 0xD8, 0x00]);
    let decoded = ConnectionValidationRequest::from_bytes(&request.payload, true).unwrap();
    assert_eq!(decoded.server_receive_buffer_size, 105576);
    assert!(decoded.auth_nz.is_empty());

    let mut s = ServerSession::accept();
    assert_eq!(s.state(), SessionState::AwaitValidationResponse);
    assert_eq!(s.expected_response_command(), Some(Command::ConnectionValidation));
    assert!(!s.authenticated());

    let body = validation_response_body();
    assert_eq!(&body[6..8], &[0, 0]);
    let h = PvAccessHeader::new(0x80, Command::ConnectionValidation, body.len() as u32);
    assert_eq!(s.on_frame(&h, &body), SessionOutput::Idle);
    assert_eq!(s.state(), SessionState::Active);
    assert_eq!(s.expected_response_command(), None);
    assert!(s.authenticated());
}

#[test]
fn session_echo_after_handshake() {
    let mut s = active();
    let body = vec![0x00, 0x05, 1, 2, 3, 4, 5];
    let h = PvAccessHeader::new(0x80, Command::Echo, body.len() as u32);
    match s.on_frame(&h, &body) {
        SessionOutput::Reply(frame) => {
            assert_eq!(frame.header.message_command, Command::Echo);
            assert_eq!(frame.header.message_command.code(), 0x02);
            assert_eq!(frame.payload, vec![0x00, 0x05, 1, 2, 3, 4, 5]);
            assert_eq!(&frame.payload[2..], &[1, 2, 3, 4, 5]);
            assert_eq!(frame.header.payload_size, 7);
            assert!(frame.header.is_big_endian());
            assert!(frame.header.is_server_message());
            assert_eq!(frame.header.flags.bits(), 0xC0);
        }
        other => panic!("no reply: {other:?}"),
    }
    assert_eq!(s.state(), SessionState::Active);
    // Little-endian requests are answered little-endian.
    let body = vec![0x02, 0x00, 9, 8];
    let h = PvAccessHeader::new(0x00, Command::Echo, body.len() as u32);
    match s.on_frame(&h, &body) {
        SessionOutput::Reply(frame) => {
            assert_eq!(frame.payload, body);
            assert_eq!(frame.header.flags.bits(), 0x40);
        }
        other => panic!("no reply: {other:?}"),
    }
}

#[test]
fn session_any_other_command_during_the_handshake_closes() {
    for byte in 0u16..=255 {
        let command = Command::from_byte(byte as u8);
        if command == Command::ConnectionValidation {
            continue;
        }
        let mut s = ServerSession::accept();
        let h = PvAccessHeader::new(0x80, command, 0);
        assert_eq!(
            s.on_frame(&h, &[]),
            SessionOutput::Close(CloseReason::Protocol(ProtocolError::UnexpectedCommand))
        );
        assert_eq!(s.state(), SessionState::Closed);
        assert_eq!(s.expected_response_command(), None);
    }
}

#[test]
fn session_bad_validation_response_closes() {
    let mut s = ServerSession::accept();
    let h = PvAccessHeader::new(0x80, Command::ConnectionValidation, 3);
    assert_eq!(
        s.on_frame(&h, &[1, 2, 3]),
        SessionOutput::Close(CloseReason::Decode(DecodeError::Truncated))
    );
    assert_eq!(s.state(), SessionState::Closed);
    let mut s = ServerSession::accept();
    let body = [0, 0, 0, 1, 0, 1, 0xF0, 0x00, 0];
    let h = PvAccessHeader::new(0x80, Command::ConnectionValidation, 9);
    assert_eq!(
        s.on_frame(&h, &body),
        SessionOutput::Close(CloseReason::Decode(DecodeError::InvalidQos))
    );
}

#[test]
fn session_dispatch_by_command() {
    let table = [
        (Command::CreateChannel, Handler::CreateChannel),
        (Command::DestroyChannel, Handler::DestroyChannel),
        (Command::ChannelGet, Handler::ChannelGet),
        (Command::ChannelPut, Handler::ChannelPut),
        (Command::ChannelMonitor, Handler::ChannelMonitor),
        (Command::DestroyRequest, Handler::DestroyRequest),
        (Command::ChannelProcess, Handler::ChannelProcess),
        (Command::GetField, Handler::GetField),
        (Command::Message, Handler::Message),
    ];
    for (command, handler) in table {
        let mut s = active();
        assert_eq!(route(command), Some(handler));
        let h = PvAccessHeader::new(0x80, command, 0);
        assert_eq!(s.on_frame(&h, &[]), SessionOutput::Dispatch(handler));
        assert_eq!(s.state(), SessionState::Active);
    }
    for command in [
        Command::Unknown,
        Command::Beacon,
        Command::Search,
        Command::SearchResponse,
        Command::ChannelPutGet,
        Command::ChannelArray,
        Command::ChannelRpc,
        Command::CancelRequest,
        Command::ConnectionValidation,
    ] {
        let mut s = active();
        assert_eq!(route(command), None);
        let h = PvAccessHeader::new(0x80, command, 0);
        assert_eq!(s.on_frame(&h, &[]), SessionOutput::Idle);
        assert_eq!(s.state(), SessionState::Active);
    }
}

#[test]
fn session_bad_echo_closes() {
    let mut s = active();
    let h = PvAccessHeader::new(0x80, Command::Echo, 3);
    assert_eq!(
        s.on_frame(&h, &[0, 5, 1]),
        SessionOutput::Close(CloseReason::Decode(DecodeError::Truncated))
    );
    assert_eq!(s.state(), SessionState::Closed);
    // A closed session ignores everything.
    let h = PvAccessHeader::new(0x80, Command::Echo, 2);
    assert_eq!(s.on_frame(&h, &[0, 0]), SessionOutput::Idle);
    assert_eq!(s.state(), SessionState::Closed);
}

#[test]
fn session_ends() {
    let mut s = active();
    assert_eq!(s.on_eof(), SessionOutput::Close(CloseReason::PeerClosed));
    assert_eq!(s.state(), SessionState::Closed);
    let mut s = active();
    assert_eq!(s.on_write_error(), SessionOutput::Close(CloseReason::WriteFailed));
    assert_eq!(s.state(), SessionState::Closed);
    let mut s = active();
    assert_eq!(
        s.on_frame_error(FrameError::InvalidMagic),
        SessionOutput::Close(CloseReason::Frame(FrameError::InvalidMagic))
    );
    let mut s = ServerSession::accept();
    assert_eq!(
        s.on_handshake_deadline(),
        SessionOutput::Close(CloseReason::Protocol(ProtocolError::HandshakeTimeout))
    );
    assert_eq!(s.state(), SessionState::Closed);
    let mut s = active();
    assert_eq!(s.on_handshake_deadline(), SessionOutput::Idle);
    assert_eq!(s.state(), SessionState::Active);
}

#[test]
fn session_commands_of_the_server() {
    let mut s = active();
    match s.on_command(&SessionCommand::SendEcho(vec![7, 8])) {
        SessionOutput::Reply(frame) => {
            assert_eq!(frame.header.message_command, Command::Echo);
            assert_eq!(frame.header.flags.bits(), 0xC0);
            assert_eq!(frame.payload, vec![0, 2, 7, 8]);
        }
        other => panic!("no echo: {other:?}"),
    }
    assert_eq!(s.on_command(&SessionCommand::SendEcho(vec![0; 70000])), SessionOutput::Idle);
    assert_eq!(
        s.on_command(&SessionCommand::Shutdown),
        SessionOutput::Close(CloseReason::Shutdown)
    );
    assert_eq!(s.state(), SessionState::Closed);
    assert_eq!(s.on_command(&SessionCommand::SendEcho(vec![1])), SessionOutput::Idle);
    let mut waiting = ServerSession::accept();
    assert_eq!(waiting.on_command(&SessionCommand::SendEcho(vec![1])), SessionOutput::Idle);
}

#[test]
fn session_validation_request_too_long() {
    assert_eq!(
        ServerSession::validation_request(1, 1, vec!["m".repeat(300)]),
        Err(EncodeError::FieldTooLong)
    );
}

#[test]
fn session_reply_flags() {
    let big = PvAccessHeader::new(0x80 | 0x10 | 0x01, Command::Echo, 0);
    let little = PvAccessHeader::new(0x40, Command::Echo, 0);
    assert_eq!(flags_for_reply(&big.flags, true), 0xC0);
    assert_eq!(flags_for_reply(&big.flags, false), 0x80);
    assert_eq!(flags_for_reply(&little.flags, true), 0x40);
    assert_eq!(flags_for_reply(&little.flags, false), 0x00);
    let frame = echo_reply(&little, &[1, 0, 0xAA], false).unwrap();
    assert_eq!(frame.payload, vec![1, 0, 0xAA]);
    assert_eq!(frame.header.flags.bits(), 0x00);
    assert_eq!(echo_reply(&little, &[1, 0, 0xAA, 0xBB], false), Err(DecodeError::TrailingBytes));
}

#[test]
fn session_over_a_stream() {
    // The bytes of a whole session of a client, as the server reads them.
    let mut stream = Vec::new();
    let body = validation_response_body();
    stream.extend_from_slice(
        &PvAccessHeader::new(0x80, Command::ConnectionValidation, body.len() as u32).to_bytes(),
    );
    stream.extend_from_slice(&body);
    stream.extend_from_slice(&PvAccessHeader::new(0x80, Command::Echo, 7).to_bytes());
    stream.extend_from_slice(&[0, 5, 1, 2, 3, 4, 5]);
    let mut decoder = PvAccessDecoder;
    let mut session = ServerSession::accept();
    let mut replies = Vec::new();
    while let Some((header, body)) = decoder.decode(&mut stream).unwrap() {
        if let SessionOutput::Reply(frame) = session.on_frame(&header, &body) {
            replies.push(frame);
        }
    }
    assert_eq!(replies.len(), 1);
    assert_eq!(replies[0].payload, vec![0, 5, 1, 2, 3, 4, 5]);
    assert_eq!(session.state(), SessionState::Active);
}
