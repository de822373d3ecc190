//! The server's side of one TCP session: what the engine does with each
//! frame, given what it awaits.
//!
//! A session starts in `AwaitValidationResponse`, right after the server has
//! sent its validation request. The first frame has to be the validation
//! response; then the session is `Active` and frames are dispatched by their
//! command. `Closed` is final. The transport performs what the engine
//! decides: it sends the frames and closes the connection.

use crate::error::{DecodeError, EncodeError, FrameError, ProtocolError};
use crate::frame::{frame_message, PvAccessFrame};
use crate::header::{Command, PvAccessHeader, PROTOCOL_VERSION};
use crate::flags::PvHeaderFlags;
use crate::messages::echo::{echo_wire, parse_echo, EchoMessage, EchoResponse};
use crate::messages::validation::{
    parse_validation_response, ConnectionValidationRequest, ConnectionValidationResponse,
    ValidationRequestModel,
};
use vstd::prelude::*;

verus! {

/// Where a session stands.
#[derive(Debug, Clone, Copy, PartialEq, Eq, Structural)]
pub enum SessionState {
    /// The validation request is out and its response is awaited.
    AwaitValidationResponse,
    /// The handshake is done and commands are dispatched.
    Active,
    /// The session is over.
    Closed,
}

/// Why a session was closed.
#[derive(Debug, Clone, Copy, PartialEq, Eq, Structural)]
pub enum CloseReason {
    /// The peer broke the session state machine.
    Protocol(ProtocolError),
    /// A body could not be decoded; a stream cannot be resynchronised.
    Decode(DecodeError),
    /// A header could not be decoded.
    Frame(FrameError),
    /// The peer closed the stream.
    PeerClosed,
    /// A write to the peer failed.
    WriteFailed,
    /// The server closed the session of its own accord.
    Shutdown,
    /// The configuration holds a value that the handshake cannot carry.
    InvalidConfig,
}

/// The handlers that the engine routes application commands to.
#[derive(Debug, Clone, Copy, PartialEq, Eq, Structural)]
pub enum Handler {
    CreateChannel,
    DestroyChannel,
    ChannelGet,
    ChannelPut,
    ChannelMonitor,
    DestroyRequest,
    ChannelProcess,
    GetField,
    Message,
}

/// The handler of a command, if the engine routes it to one.
pub open spec fn handler_of(command: Command) -> Option<Handler> {
    match command {
        Command::CreateChannel => Some(Handler::CreateChannel),
        Command::DestroyChannel => Some(Handler::DestroyChannel),
        Command::ChannelGet => Some(Handler::ChannelGet),
        Command::ChannelPut => Some(Handler::ChannelPut),
        Command::ChannelMonitor => Some(Handler::ChannelMonitor),
        Command::DestroyRequest => Some(Handler::DestroyRequest),
        Command::ChannelProcess => Some(Handler::ChannelProcess),
        Command::GetField => Some(Handler::GetField),
        Command::Message => Some(Handler::Message),
        _ => None,
    }
}

/// The handler of a command, if the engine routes it to one.
pub fn route(command: Command) -> (h: Option<Handler>)
    ensures
        h == handler_of(command),
{
    match command {
        Command::CreateChannel => Some(Handler::CreateChannel),
        Command::DestroyChannel => Some(Handler::DestroyChannel),
        Command::ChannelGet => Some(Handler::ChannelGet),
        Command::ChannelPut => Some(Handler::ChannelPut),
        Command::ChannelMonitor => Some(Handler::ChannelMonitor),
        Command::DestroyRequest => Some(Handler::DestroyRequest),
        Command::ChannelProcess => Some(Handler::ChannelProcess),
        Command::GetField => Some(Handler::GetField),
        Command::Message => Some(Handler::Message),
        _ => None,
    }
}

/// What the server itself asks of a session.
#[derive(Debug, Clone, PartialEq, Eq)]
pub enum SessionCommand {
    /// Send the peer an echo request with this payload.
    SendEcho(Vec<u8>),
    /// Close the session.
    Shutdown,
}

/// What the engine decided on one frame.
#[derive(Debug, Clone, PartialEq, Eq)]
pub enum SessionOutput {
    /// Nothing is sent: the handshake was completed, or the command is one
    /// that the engine ignores.
    Idle,
    /// The frame is to be sent to the peer.
    Reply(PvAccessFrame),
    /// The frame is for the given handler.
    Dispatch(Handler),
    /// The connection is to be closed.
    Close(CloseReason),
}

/// What the engine decides, as a mathematical value.
pub enum OutputModel {
    Idle,
    Reply { flags: u8, command: Command, payload: Seq<u8> },
    Dispatch(Handler),
    Close(CloseReason),
}

impl View for SessionOutput {
    type V = OutputModel;

    open spec fn view(&self) -> OutputModel {
        match self {
            SessionOutput::Idle => OutputModel::Idle,
            SessionOutput::Reply(frame) => OutputModel::Reply {
                flags: frame.header.flags.raw(),
                command: frame.header.message_command,
                payload: frame.payload@,
            },
            SessionOutput::Dispatch(h) => OutputModel::Dispatch(*h),
            SessionOutput::Close(reason) => OutputModel::Close(*reason),
        }
    }
}

/// The flags of a reply to a frame with the flags `incoming`: the same byte
/// order, not segmented, and the direction of the side that replies.
pub open spec fn reply_flags(incoming: PvHeaderFlags, from_server: bool) -> u8 {
    if incoming.big_endian() {
        if from_server {
            0xC0
        } else {
            0x80
        }
    } else {
        if from_server {
            0x40
        } else {
            0x00
        }
    }
}

/// What the engine of a server decides on a frame, and where that leaves the
/// session.
pub open spec fn server_step(state: SessionState, header: PvAccessHeader, body: Seq<u8>) -> (
    SessionState,
    OutputModel,
) {
    let big = header.flags.big_endian();
    match state {
        SessionState::Closed => (SessionState::Closed, OutputModel::Idle),
        SessionState::AwaitValidationResponse => if header.message_command
            != Command::ConnectionValidation {
            (
                SessionState::Closed,
                OutputModel::Close(CloseReason::Protocol(ProtocolError::UnexpectedCommand)),
            )
        } else {
            match parse_validation_response(body, big) {
                Err(e) => (SessionState::Closed, OutputModel::Close(CloseReason::Decode(e))),
                Ok(_) => (SessionState::Active, OutputModel::Idle),
            }
        },
        SessionState::Active => if header.message_command == Command::Echo {
            match parse_echo(body, big) {
                Err(e) => (SessionState::Closed, OutputModel::Close(CloseReason::Decode(e))),
                Ok(payload) => (
                    SessionState::Active,
                    OutputModel::Reply {
                        flags: reply_flags(header.flags, true),
                        command: Command::Echo,
                        payload: echo_wire(payload, big),
                    },
                ),
            }
        } else {
            match handler_of(header.message_command) {
                Some(h) => (SessionState::Active, OutputModel::Dispatch(h)),
                None => (SessionState::Active, OutputModel::Idle),
            }
        },
    }
}

/// The command that a session in the given state awaits from its peer.
pub open spec fn awaited(state: SessionState) -> Option<Command> {
    match state {
        SessionState::AwaitValidationResponse => Some(Command::ConnectionValidation),
        _ => None,
    }
}

/// The flags of a reply to a frame with the flags `incoming`.
pub fn flags_for_reply(incoming: &PvHeaderFlags, from_server: bool) -> (flags: u8)
    ensures
        flags == reply_flags(*incoming, from_server),
        (flags & 0x80 != 0) == incoming.big_endian(),
        flags & crate::flags::KNOWN_FLAG_BITS == flags,
{
    assert(0xC0u8 & 0x80 != 0 && 0x80u8 & 0x80 != 0 && 0x40u8 & 0x80 == 0 && 0x00u8 & 0x80 == 0)
        by (bit_vector);
    assert(0xC0u8 & 0xF1 == 0xC0 && 0x80u8 & 0xF1 == 0x80 && 0x40u8 & 0xF1 == 0x40 && 0x00u8
        & 0xF1 == 0x00) by (bit_vector);
    if incoming.is_big_endian() {
        if from_server {
            0xC0
        } else {
            0x80
        }
    } else {
        if from_server {
            0x40
        } else {
            0x00
        }
    }
}

/// The frame that answers the echo request in `body`: the same payload in
/// the same byte order.
pub fn echo_reply(header: &PvAccessHeader, body: &[u8], from_server: bool) -> (r: Result<
    PvAccessFrame,
    DecodeError,
>)
    ensures
        match r {
            Ok(frame) => parse_echo(body@, header.flags.big_endian()) matches Ok(payload)
                && frame.wf() && frame.header.version == PROTOCOL_VERSION
                && frame.header.message_command == Command::Echo && frame.header.flags.raw()
                == reply_flags(header.flags, from_server) && frame.header.flags.big_endian()
                == header.flags.big_endian() && frame.payload@ == echo_wire(
                payload,
                header.flags.big_endian(),
            ) && frame.payload@ == body@,
            Err(e) => parse_echo(body@, header.flags.big_endian()) == Err::<Seq<u8>, DecodeError>(
                e,
            ),
        },
{
    let big: bool = header.is_big_endian();
    let request = match EchoMessage::from_bytes(body, big) {
        Ok(m) => m,
        Err(e) => return Err(e),
    };
    proof {
        crate::messages::echo::lemma_echo_canonical(body@, big);
    }
    let response = EchoResponse::answering(&request);
    let flags: u8 = flags_for_reply(&header.flags, from_server);
    match frame_message(&response, Command::Echo, flags) {
        Ok(frame) => {
            proof {
                PvHeaderFlags::lemma_raw(flags & crate::flags::KNOWN_FLAG_BITS);
            }
            Ok(frame)
        },
        Err(_) => {
            assert(false);
            Err(DecodeError::Truncated)
        },
    }
}

/// The validation request with the given sizes and mechanism names.
pub open spec fn offer(
    receive_buffer_size: u32,
    introspection_registry_max_size: u16,
    mechanisms: Seq<Seq<char>>,
) -> ValidationRequestModel {
    ValidationRequestModel {
        server_receive_buffer_size: receive_buffer_size,
        server_introspection_registry_max_size: introspection_registry_max_size,
        auth_nz: mechanisms,
    }
}

/// A validation request that has an encoding fits into one frame.
pub proof fn lemma_offer_length(m: ValidationRequestModel)
    requires
        m.encodable(),
    ensures
        m.wire(true).len() <= 7 + 255 * 256,
{
    crate::wire::lemma_strings_length(m.auth_nz);
}

/// One TCP session as the server sees it.
#[derive(Debug, Clone, PartialEq, Eq)]
pub struct ServerSession {
    state: SessionState,
    authenticated: bool,
    expected_response_command: Option<Command>,
}

impl ServerSession {
    /// What is awaited goes with the state, and only a session that has been
    /// active is authenticated.
    pub open spec fn wf(self) -> bool {
        &&& self.awaits() == awaited(self.state_of())
        &&& self.state_of() == SessionState::AwaitValidationResponse ==> !self.is_authenticated()
        &&& self.state_of() == SessionState::Active ==> self.is_authenticated()
    }

    /// Where the session stands.
    pub closed spec fn state_of(self) -> SessionState {
        self.state
    }

    /// Whether the peer has completed the handshake.
    pub closed spec fn is_authenticated(self) -> bool {
        self.authenticated
    }

    /// The command that is awaited from the peer; `None` when idle.
    pub closed spec fn awaits(self) -> Option<Command> {
        self.expected_response_command
    }

    /// Where the session stands.
    pub fn state(&self) -> (s: SessionState)
        ensures
            s == self.state_of(),
    {
        self.state
    }

    /// Whether the peer has completed the handshake.
    pub fn authenticated(&self) -> (b: bool)
        ensures
            b == self.is_authenticated(),
    {
        self.authenticated
    }

    /// The command that is awaited from the peer; `None` when idle.
    pub fn expected_response_command(&self) -> (c: Option<Command>)
        ensures
            c == self.awaits(),
    {
        self.expected_response_command
    }

    /// The session of a connection that was just accepted: the validation
    /// request is due to be sent and its response is awaited.
    pub fn accept() -> (s: ServerSession)
        ensures
            s.state_of() == SessionState::AwaitValidationResponse,
            !s.is_authenticated(),
            s.awaits() == Some(Command::ConnectionValidation),
            s.wf(),
    {
        ServerSession {
            state: SessionState::AwaitValidationResponse,
            authenticated: false,
            expected_response_command: Some(Command::ConnectionValidation),
        }
    }

    /// The validation request that opens the session: a big-endian frame
    /// from the server, of the protocol's version, with the configured sizes
    /// and mechanism names.
    pub fn validation_request(
        receive_buffer_size: u32,
        introspection_registry_max_size: u16,
        mechanisms: Vec<String>,
    ) -> (r: Result<PvAccessFrame, EncodeError>)
        ensures
            r is Ok <==> offer(
                receive_buffer_size,
                introspection_registry_max_size,
                mechanisms.deep_view(),
            ).encodable(),
            r matches Ok(frame) ==> frame.header.version == PROTOCOL_VERSION,
            r matches Ok(frame) ==> frame.wf() && frame.header.message_command
                == Command::ConnectionValidation && frame.header.flags.raw() == 0xC0
                && frame.payload@ == offer(
                receive_buffer_size,
                introspection_registry_max_size,
                mechanisms.deep_view(),
            ).wire(true),
            r matches Err(e) ==> e == EncodeError::FieldTooLong,
    {
        let request = ConnectionValidationRequest::new(
            receive_buffer_size,
            introspection_registry_max_size,
            mechanisms,
        );
        assert(0xC0u8 & 0x80 != 0 && 0xC0u8 & 0xF1 == 0xC0) by (bit_vector);
        proof {
            PvHeaderFlags::lemma_raw(0xC0u8 & crate::flags::KNOWN_FLAG_BITS);
        }
        proof {
            let m = offer(
                receive_buffer_size,
                introspection_registry_max_size,
                mechanisms.deep_view(),
            );
            if m.encodable() {
                lemma_offer_length(m);
            }
        }
        frame_message(&request, Command::ConnectionValidation, 0xC0)
    }

    /// Decides what to do with a frame that arrived.
    ///
    /// While the validation response is awaited, any other command closes the
    /// session with `UnexpectedCommand`, and a response that does not decode
    /// closes it with the decode error. In an active session an echo request
    /// is answered with its own payload, commands that have a handler are
    /// routed to it, and every other command is ignored. A closed session
    /// ignores everything.
    pub fn on_frame(&mut self, header: &PvAccessHeader, body: &[u8]) -> (out: SessionOutput)
        requires
            old(self).wf(),
        ensures
            final(self).wf(),
            final(self).state_of() == server_step(old(self).state_of(), *header, body@).0,
            out@ == server_step(old(self).state_of(), *header, body@).1,
            out matches SessionOutput::Reply(frame) ==> frame.wf() && frame.header.version
                == PROTOCOL_VERSION,
            final(self).is_authenticated() == (old(self).is_authenticated() || final(self).state_of() == SessionState::Active),
            old(self).state_of() == SessionState::AwaitValidationResponse && header.message_command
                != Command::ConnectionValidation ==> final(self).state_of() == SessionState::Closed
                && out == SessionOutput::Close(
                CloseReason::Protocol(ProtocolError::UnexpectedCommand),
            ),
    {
        match self.state {
            SessionState::Closed => SessionOutput::Idle,
            SessionState::AwaitValidationResponse => {
                if header.message_command.code() != Command::ConnectionValidation.code() {
                    self.close();
                    return SessionOutput::Close(
                        CloseReason::Protocol(ProtocolError::UnexpectedCommand),
                    );
                }
                proof {
                    crate::header::lemma_command_code(header.message_command);
                }
                match ConnectionValidationResponse::from_bytes(body, header.is_big_endian()) {
                    Ok(_) => {
                        self.state = SessionState::Active;
                        self.authenticated = true;
                        self.expected_response_command = None;
                        SessionOutput::Idle
                    },
                    Err(e) => {
                        self.close();
                        SessionOutput::Close(CloseReason::Decode(e))
                    },
                }
            },
            SessionState::Active => {
                if header.message_command.code() == Command::Echo.code() {
                    proof {
                        crate::header::lemma_command_code(header.message_command);
                    }
                    match echo_reply(header, body, true) {
                        Ok(frame) => SessionOutput::Reply(frame),
                        Err(e) => {
                            self.close();
                            SessionOutput::Close(CloseReason::Decode(e))
                        },
                    }
                } else {
                    proof {
                        crate::header::lemma_command_code(header.message_command);
                    }
                    match route(header.message_command) {
                        Some(h) => SessionOutput::Dispatch(h),
                        None => SessionOutput::Idle,
                    }
                }
            },
        }
    }

    /// Decides what to do with a command of the server itself. An active
    /// session sends the peer an echo request with the payload of `SendEcho`,
    /// big-endian and without segments; a payload that is too long for an
    /// echo is not sent, and neither is an echo on a session that is not
    /// active. `Shutdown` closes the session.
    pub fn on_command(&mut self, command: &SessionCommand) -> (out: SessionOutput)
        requires
            old(self).wf(),
        ensures
            final(self).wf(),
            match command {
                SessionCommand::Shutdown => final(self).state_of() == SessionState::Closed && out
                    == SessionOutput::Close(CloseReason::Shutdown),
                SessionCommand::SendEcho(payload) => *final(self) == *old(self) && (if old(self).state_of() == SessionState::Active && payload@.len()
                    <= crate::messages::echo::MAX_ECHO_PAYLOAD {
                    out@ == (OutputModel::Reply {
                        flags: 0xC0,
                        command: Command::Echo,
                        payload: echo_wire(payload@, true),
                    })
                } else {
                    out == SessionOutput::Idle
                }),
            },
            out matches SessionOutput::Reply(frame) ==> frame.wf() && frame.header.version
                == PROTOCOL_VERSION,
    {
        match command {
            SessionCommand::Shutdown => {
                self.close();
                SessionOutput::Close(CloseReason::Shutdown)
            },
            SessionCommand::SendEcho(payload) => {
                match self.state {
                    SessionState::Active => {},
                    _ => return SessionOutput::Idle,
                }
                let request = EchoMessage { random_bytes: payload.clone() };
                assert(0xC0u8 & 0x80 != 0 && 0xC0u8 & 0xF1 == 0xC0) by (bit_vector);
                proof {
                    PvHeaderFlags::lemma_raw(0xC0u8 & crate::flags::KNOWN_FLAG_BITS);
                }
                match frame_message(&request, Command::Echo, 0xC0) {
                    Ok(frame) => SessionOutput::Reply(frame),
                    Err(_) => SessionOutput::Idle,
                }
            },
        }
    }

    /// The peer closed the stream: the session is over.
    pub fn on_eof(&mut self) -> (out: SessionOutput)
        requires
            old(self).wf(),
        ensures
            final(self).wf(),
            final(self).state_of() == SessionState::Closed,
            out == SessionOutput::Close(CloseReason::PeerClosed),
    {
        self.close();
        SessionOutput::Close(CloseReason::PeerClosed)
    }

    /// A write to the peer failed: the session is over.
    pub fn on_write_error(&mut self) -> (out: SessionOutput)
        requires
            old(self).wf(),
        ensures
            final(self).wf(),
            final(self).state_of() == SessionState::Closed,
            out == SessionOutput::Close(CloseReason::WriteFailed),
    {
        self.close();
        SessionOutput::Close(CloseReason::WriteFailed)
    }

    /// A header on the stream could not be decoded: the session is over.
    pub fn on_frame_error(&mut self, error: FrameError) -> (out: SessionOutput)
        requires
            old(self).wf(),
        ensures
            final(self).wf(),
            final(self).state_of() == SessionState::Closed,
            out == SessionOutput::Close(CloseReason::Frame(error)),
    {
        self.close();
        SessionOutput::Close(CloseReason::Frame(error))
    }

    /// The deadline of the handshake has passed. A session that still awaits
    /// the validation response is closed with `HandshakeTimeout`; any other
    /// session is left as it is.
    pub fn on_handshake_deadline(&mut self) -> (out: SessionOutput)
        requires
            old(self).wf(),
        ensures
            final(self).wf(),
            old(self).state_of() == SessionState::AwaitValidationResponse ==> final(self).state_of()
                == SessionState::Closed && out == SessionOutput::Close(
                CloseReason::Protocol(ProtocolError::HandshakeTimeout),
            ),
            old(self).state_of() != SessionState::AwaitValidationResponse ==> *final(self) == *old(self)
                && out == SessionOutput::Idle,
    {
        match self.state {
            SessionState::AwaitValidationResponse => {
                self.close();
                SessionOutput::Close(CloseReason::Protocol(ProtocolError::HandshakeTimeout))
            },
            _ => SessionOutput::Idle,
        }
    }

    pub(crate) fn close(&mut self)
        ensures
            final(self).state_of() == SessionState::Closed,
            final(self).awaits() == None::<Command>,
            final(self).is_authenticated() == old(self).is_authenticated(),
            final(self).wf(),
    {
        self.state = SessionState::Closed;
        self.expected_response_command = None;
    }
}

/// No command is served before the handshake is done: while the validation
/// response is awaited a frame is answered with nothing or closes the
/// session, and the session becomes active only on a validation response
/// that decodes.
pub proof fn lemma_handshake_first(header: PvAccessHeader, body: Seq<u8>)
    ensures
        ({
            let (next, out) = server_step(SessionState::AwaitValidationResponse, header, body);
            &&& out is Idle || out is Close
            &&& next == SessionState::Active <==> header.message_command
                == Command::ConnectionValidation && parse_validation_response(
                body,
                header.flags.big_endian(),
            ) is Ok
            &&& next != SessionState::Active ==> next == SessionState::Closed
        }),
{
}

/// A closed session stays closed and answers nothing; an active session
/// stays active unless a frame closes it.
pub proof fn lemma_closed_is_final(state: SessionState, header: PvAccessHeader, body: Seq<u8>)
    ensures
        state == SessionState::Closed ==> server_step(state, header, body) == (
            SessionState::Closed,
            OutputModel::Idle,
        ),
        server_step(state, header, body).1 is Close <==> state != SessionState::Closed
            && server_step(state, header, body).0 == SessionState::Closed,
        server_step(state, header, body).0 != SessionState::AwaitValidationResponse,
{
}

/// An echo request that decodes is answered by an active session with a
/// frame of the command echo whose payload is the body of the request.
pub proof fn lemma_echo_is_repeated(header: PvAccessHeader, body: Seq<u8>)
    requires
        header.message_command == Command::Echo,
        parse_echo(body, header.flags.big_endian()) is Ok,
    ensures
        server_step(SessionState::Active, header, body) == (
            SessionState::Active,
            OutputModel::Reply {
                flags: reply_flags(header.flags, true),
                command: Command::Echo,
                payload: body,
            },
        ),
{
    crate::messages::echo::lemma_echo_canonical(body, header.flags.big_endian());
}

} // verus!
