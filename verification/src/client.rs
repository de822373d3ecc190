//! The client's side: discovery over UDP, the switch to TCP, the handshake
//! and the fall back to UDP.
//!
//! The client listens for beacons in mode `Udp`. A beacon that decodes is
//! published and switches the mode to `Tcp`; the TCP task then connects to
//! the address of the latest beacon. A failed connect, a failed session and
//! a closed stream switch the mode back to `Udp`. A datagram that does not
//! decode is skipped and changes nothing.

use crate::error::{DecodeError, FrameError, ProtocolError};
use crate::frame::{frame_message, read_datagram};
use crate::header::{Command, PvAccessHeader};
use crate::messages::beacon::{parse_beacon, BeaconMessage, BeaconModel};
use crate::messages::echo::{echo_wire, parse_echo};
use crate::messages::validation::{
    parse_validation_request, ConnectionQoS, ConnectionValidationRequest,
    ConnectionValidationResponse, ValidationResponseModel,
};
use crate::session::{echo_reply, reply_flags, CloseReason, OutputModel, SessionOutput};
use vstd::prelude::*;

verus! {

/// The transport that the client is engaged in.
#[derive(Debug, Clone, Copy, PartialEq, Eq, Structural)]
pub enum Mode {
    /// Listening for beacons.
    Udp,
    /// Engaged in a session.
    Tcp,
}

/// What the client is configured with.
#[derive(Debug, Clone, Copy, PartialEq, Eq)]
pub struct ClientConfig {
    /// The address that the UDP socket is bound to; an IPv4 address in its
    /// mapped form.
    pub udp_host: [u8; 16],
    /// The port that the UDP socket is bound to.
    pub udp_port: u16,
    /// The TCP port that is used where a beacon names none.
    pub tcp_port: u16,
    /// The size of the client's receive buffer.
    pub buffer_size: u32,
    /// How many type descriptors the client lets a peer cache.
    pub introspection_registry_max_size: i16,
}

/// The flags of the validation response: big-endian, from the client.
pub const VALIDATION_RESPONSE_FLAGS: u8 = 0x80;

/// What became of one datagram.
#[derive(Debug, Clone, PartialEq, Eq)]
pub enum UdpOutcome {
    /// The datagram held a beacon: it was published and the mode is `Tcp`.
    Discovered,
    /// The datagram held a frame that is no beacon; it was ignored.
    Ignored(Command),
    /// The datagram held no frame; it was skipped.
    BadFrame(FrameError),
    /// The datagram held a beacon that does not decode; it was skipped.
    BadBeacon(DecodeError),
}

/// What a datagram holds for the client: the beacon, or why there is none.
pub enum DatagramModel {
    Beacon(BeaconModel),
    Other(Command),
    BadFrame(FrameError),
    BadBeacon(DecodeError),
}

/// What a datagram holds for the client.
pub open spec fn classify(bytes: Seq<u8>) -> DatagramModel {
    match crate::frame::datagram_frame(bytes) {
        Err(e) => DatagramModel::BadFrame(e),
        Ok((h, body)) => if h.message_command == Command::Beacon {
            match parse_beacon(body, h.flags.big_endian()) {
                Err(e) => DatagramModel::BadBeacon(e),
                Ok(b) => DatagramModel::Beacon(b),
            }
        } else {
            DatagramModel::Other(h.message_command)
        },
    }
}

/// The mode of the client and the latest beacon.
#[derive(Debug, Clone, PartialEq, Eq)]
pub struct ClientEngine {
    /// The transport that the client is engaged in.
    pub mode: Mode,
    /// The latest beacon that was published, if there was one.
    pub beacon: Option<BeaconMessage>,
}

impl ClientEngine {
    /// A client that listens for beacons and has seen none.
    pub fn new() -> (c: ClientEngine)
        ensures
            c.mode == Mode::Udp,
            c.beacon is None,
    {
        ClientEngine { mode: Mode::Udp, beacon: None }
    }

    /// Takes one datagram of the UDP socket.
    ///
    /// A beacon that decodes becomes the latest beacon and switches the mode
    /// to `Tcp`. Anything else leaves the mode and the latest beacon as they
    /// are: a datagram that is too short, has a wrong magic byte or a
    /// truncated payload, a frame of another command, a beacon that does not
    /// decode.
    pub fn on_datagram(&mut self, bytes: &[u8]) -> (out: UdpOutcome)
        ensures
            match classify(bytes@) {
                DatagramModel::Beacon(b) => out == UdpOutcome::Discovered && final(self).mode
                    == Mode::Tcp && final(self).beacon is Some && final(self).beacon.unwrap()@
                    == b,
                DatagramModel::Other(c) => out == UdpOutcome::Ignored(c) && *final(self) == *old(
                    self,
                ),
                DatagramModel::BadFrame(e) => out == UdpOutcome::BadFrame(e) && *final(self)
                    == *old(self),
                DatagramModel::BadBeacon(e) => out == UdpOutcome::BadBeacon(e) && *final(self)
                    == *old(self),
            },
    {
        let (header, body) = match read_datagram(bytes) {
            Ok(x) => x,
            Err(e) => return UdpOutcome::BadFrame(e),
        };
        proof {
            crate::header::lemma_command_code(header.message_command);
        }
        if header.message_command.code() != Command::Beacon.code() {
            return UdpOutcome::Ignored(header.message_command);
        }
        match BeaconMessage::from_bytes(body.as_slice(), header.is_big_endian()) {
            Ok(beacon) => {
                self.beacon = Some(beacon);
                self.mode = Mode::Tcp;
                UdpOutcome::Discovered
            },
            Err(e) => UdpOutcome::BadBeacon(e),
        }
    }

    /// The address and the port to connect to: those of the latest beacon,
    /// while the mode is `Tcp` and the beacon offers the protocol `tcp`.
    pub fn connect_target(&self) -> (t: Option<([u8; 16], u16)>)
        ensures
            t is Some <==> self.mode == Mode::Tcp && self.beacon is Some
                && self.beacon.unwrap().protocol@ == "tcp"@,
            t matches Some(x) ==> x.0 == self.beacon.unwrap().server_address && x.1
                == self.beacon.unwrap().server_port,
    {
        match self.mode {
            Mode::Udp => None,
            Mode::Tcp => match &self.beacon {
                Some(b) => if crate::wire::text_eq(b.protocol.as_str(), "tcp") {
                    Some((b.server_address, b.server_port))
                } else {
                    None
                },
                None => None,
            },
        }
    }

    /// The connect failed: the client listens for beacons again.
    pub fn on_connect_error(&mut self)
        ensures
            final(self).mode == Mode::Udp,
            final(self).beacon == old(self).beacon,
    {
        self.mode = Mode::Udp;
    }

    /// The session ended, because the peer closed the stream or because of
    /// an error: the client listens for beacons again.
    pub fn on_session_end(&mut self)
        ensures
            final(self).mode == Mode::Udp,
            final(self).beacon == old(self).beacon,
    {
        self.mode = Mode::Udp;
    }
}

/// Where the client's side of a session stands.
#[derive(Debug, Clone, Copy, PartialEq, Eq, Structural)]
pub enum ClientState {
    /// The validation request of the server is awaited.
    AwaitValidationRequest,
    /// The handshake is done.
    Active,
    /// The session is over.
    Closed,
}

/// The validation response of a client with the given configuration:
/// its sizes, the default priority, no switch and no mechanism.
pub open spec fn answer(buffer_size: u32, registry_max_size: u16) -> ValidationResponseModel {
    ValidationResponseModel {
        client_receive_buffer_size: buffer_size,
        client_introspection_registry_max_size: registry_max_size,
        connection_qos: 0,
        auth_nz: Seq::<char>::empty(),
    }
}

/// What the engine of a client decides on a frame, and where that leaves the
/// session. `registry` is the configured registry size, if it is one that
/// the response can carry.
pub open spec fn client_step(
    state: ClientState,
    header: PvAccessHeader,
    body: Seq<u8>,
    buffer_size: u32,
    registry: Option<u16>,
) -> (ClientState, OutputModel) {
    let big = header.flags.big_endian();
    match state {
        ClientState::Closed => (ClientState::Closed, OutputModel::Idle),
        ClientState::AwaitValidationRequest => if header.message_command
            != Command::ConnectionValidation {
            (
                ClientState::Closed,
                OutputModel::Close(CloseReason::Protocol(ProtocolError::UnexpectedCommand)),
            )
        } else {
            match parse_validation_request(body, big) {
                Err(e) => (ClientState::Closed, OutputModel::Close(CloseReason::Decode(e))),
                Ok(_) => match registry {
                    None => (ClientState::Closed, OutputModel::Close(CloseReason::InvalidConfig)),
                    Some(r) => (
                        ClientState::Active,
                        OutputModel::Reply {
                            flags: VALIDATION_RESPONSE_FLAGS,
                            command: Command::ConnectionValidation,
                            payload: answer(buffer_size, r).wire(true),
                        },
                    ),
                },
            }
        },
        ClientState::Active => if header.message_command == Command::Echo {
            match parse_echo(body, big) {
                Err(e) => (ClientState::Closed, OutputModel::Close(CloseReason::Decode(e))),
                Ok(payload) => (
                    ClientState::Active,
                    OutputModel::Reply {
                        flags: reply_flags(header.flags, false),
                        command: Command::Echo,
                        payload: echo_wire(payload, big),
                    },
                ),
            }
        } else {
            (ClientState::Active, OutputModel::Idle)
        },
    }
}

impl ClientConfig {
    /// The registry size as the validation response carries it: a negative
    /// size has no place there.
    pub open spec fn registry(self) -> Option<u16> {
        if self.introspection_registry_max_size < 0 {
            None
        } else {
            Some(self.introspection_registry_max_size as u16)
        }
    }

    /// The registry size as the validation response carries it.
    pub fn registry_max_size(&self) -> (r: Option<u16>)
        ensures
            r == self.registry(),
    {
        if self.introspection_registry_max_size < 0 {
            None
        } else {
            Some(self.introspection_registry_max_size as u16)
        }
    }
}

/// One TCP session as the client sees it.
#[derive(Debug, Clone, Copy, PartialEq, Eq, Structural)]
pub struct ClientSession {
    /// Where the session stands.
    pub state: ClientState,
}

impl ClientSession {
    /// The session of a connection that was just made: the validation
    /// request of the server is awaited.
    pub fn connected() -> (s: ClientSession)
        ensures
            s.state == ClientState::AwaitValidationRequest,
    {
        ClientSession { state: ClientState::AwaitValidationRequest }
    }

    /// Decides what to do with a frame that arrived.
    ///
    /// The first frame has to be the validation request; it is answered with
    /// the validation response of the configuration. After that an echo
    /// request is answered with its own payload and every other command is
    /// ignored. A frame that does not decode closes the session.
    pub fn on_frame(&mut self, header: &PvAccessHeader, body: &[u8], config: &ClientConfig) -> (out:
        SessionOutput)
        ensures
            final(self).state == client_step(
                old(self).state,
                *header,
                body@,
                config.buffer_size,
                config.registry(),
            ).0,
            out@ == client_step(
                old(self).state,
                *header,
                body@,
                config.buffer_size,
                config.registry(),
            ).1,
            out matches SessionOutput::Reply(frame) ==> frame.wf() && frame.header.version
                == crate::header::PROTOCOL_VERSION,
    {
        proof {
            crate::header::lemma_command_code(header.message_command);
        }
        match self.state {
            ClientState::Closed => SessionOutput::Idle,
            ClientState::AwaitValidationRequest => {
                if header.message_command.code() != Command::ConnectionValidation.code() {
                    self.state = ClientState::Closed;
                    return SessionOutput::Close(
                        CloseReason::Protocol(ProtocolError::UnexpectedCommand),
                    );
                }
                match ConnectionValidationRequest::from_bytes(body, header.is_big_endian()) {
                    Ok(_) => {},
                    Err(e) => {
                        self.state = ClientState::Closed;
                        return SessionOutput::Close(CloseReason::Decode(e));
                    },
                }
                let registry: u16 = match config.registry_max_size() {
                    Some(r) => r,
                    None => {
                        self.state = ClientState::Closed;
                        return SessionOutput::Close(CloseReason::InvalidConfig);
                    },
                };
                let response = ConnectionValidationResponse::new(
                    config.buffer_size,
                    registry,
                    ConnectionQoS::with_priority(ConnectionQoS::DEFAULT_PRIORITY),
                    String::new(),
                );
                assert(0x80u8 & 0x80 != 0 && 0x80u8 & 0xF1 == 0x80) by (bit_vector);
                proof {
                    crate::flags::PvHeaderFlags::lemma_raw(0x80u8 & crate::flags::KNOWN_FLAG_BITS);
                    assert(vstd::utf8::encode_utf8(Seq::<char>::empty()).len() == 0);
                    assert(response@ == answer(config.buffer_size, registry));
                }
                match frame_message(
                    &response,
                    Command::ConnectionValidation,
                    VALIDATION_RESPONSE_FLAGS,
                ) {
                    Ok(frame) => {
                        self.state = ClientState::Active;
                        SessionOutput::Reply(frame)
                    },
                    Err(_) => {
                        assert(false);
                        SessionOutput::Idle
                    },
                }
            },
            ClientState::Active => {
                if header.message_command.code() == Command::Echo.code() {
                    match echo_reply(header, body, false) {
                        Ok(frame) => SessionOutput::Reply(frame),
                        Err(e) => {
                            self.state = ClientState::Closed;
                            SessionOutput::Close(CloseReason::Decode(e))
                        },
                    }
                } else {
                    SessionOutput::Idle
                }
            },
        }
    }

    /// The peer closed the stream: the session is over.
    pub fn on_eof(&mut self) -> (out: SessionOutput)
        ensures
            final(self).state == ClientState::Closed,
            out == SessionOutput::Close(CloseReason::PeerClosed),
    {
        self.state = ClientState::Closed;
        SessionOutput::Close(CloseReason::PeerClosed)
    }
}

/// Whatever the mode and the latest beacon were, a stream that the peer
/// closed leaves the session closed and the client listening for beacons.
pub fn on_peer_closed(engine: &mut ClientEngine, session: &mut ClientSession)
    ensures
        final(engine).mode == Mode::Udp,
        final(engine).beacon == old(engine).beacon,
        final(session).state == ClientState::Closed,
{
    let _ = session.on_eof();
    engine.on_session_end();
}

} // verus!
