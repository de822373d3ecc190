//! The fixed eight-byte header that opens every frame.
//!
//! Byte 0 is the magic byte, byte 1 the protocol version, byte 2 the flags,
//! byte 3 the command, and bytes 4 to 7 the size of the payload in the byte
//! order that bit 7 of the flags selects.

use crate::error::FrameError;
use crate::flags::{PvHeaderFlags, KNOWN_FLAG_BITS};
use crate::wire::{put_u32, read_u32, u32_at, u32_bytes};
use vstd::prelude::*;

verus! {

/// The length of a header in bytes.
pub const HEADER_LENGTH: usize = 8;

/// The first byte of every frame.
pub const MAGIC: u8 = 0xCA;

/// The protocol version that this library writes.
pub const PROTOCOL_VERSION: u8 = 2;

/// The byte that stands for a command the protocol does not name.
pub const UNKNOWN_COMMAND_CODE: u8 = 0xFF;

/// What a frame carries.
#[derive(Debug, Clone, Copy, PartialEq, Eq, Structural)]
pub enum Command {
    Beacon,
    ConnectionValidation,
    Echo,
    Search,
    SearchResponse,
    CreateChannel,
    DestroyChannel,
    ChannelGet,
    ChannelPut,
    ChannelPutGet,
    ChannelMonitor,
    ChannelArray,
    DestroyRequest,
    ChannelProcess,
    GetField,
    Message,
    ChannelRpc,
    CancelRequest,
    /// Any byte that names no command.
    Unknown,
}

/// The command that a byte names.
pub open spec fn command_of(byte: u8) -> Command {
    if byte == 0x00 {
        Command::Beacon
    } else if byte == 0x01 {
        Command::ConnectionValidation
    } else if byte == 0x02 {
        Command::Echo
    } else if byte == 0x03 {
        Command::Search
    } else if byte == 0x04 {
        Command::SearchResponse
    } else if byte == 0x07 {
        Command::CreateChannel
    } else if byte == 0x08 {
        Command::DestroyChannel
    } else if byte == 0x0A {
        Command::ChannelGet
    } else if byte == 0x0B {
        Command::ChannelPut
    } else if byte == 0x0C {
        Command::ChannelPutGet
    } else if byte == 0x0D {
        Command::ChannelMonitor
    } else if byte == 0x0E {
        Command::ChannelArray
    } else if byte == 0x0F {
        Command::DestroyRequest
    } else if byte == 0x10 {
        Command::ChannelProcess
    } else if byte == 0x11 {
        Command::GetField
    } else if byte == 0x12 {
        Command::Message
    } else if byte == 0x14 {
        Command::ChannelRpc
    } else if byte == 0x15 {
        Command::CancelRequest
    } else {
        Command::Unknown
    }
}

/// The byte that names a command.
pub open spec fn code_of(command: Command) -> u8 {
    match command {
        Command::Beacon => 0x00,
        Command::ConnectionValidation => 0x01,
        Command::Echo => 0x02,
        Command::Search => 0x03,
        Command::SearchResponse => 0x04,
        Command::CreateChannel => 0x07,
        Command::DestroyChannel => 0x08,
        Command::ChannelGet => 0x0A,
        Command::ChannelPut => 0x0B,
        Command::ChannelPutGet => 0x0C,
        Command::ChannelMonitor => 0x0D,
        Command::ChannelArray => 0x0E,
        Command::DestroyRequest => 0x0F,
        Command::ChannelProcess => 0x10,
        Command::GetField => 0x11,
        Command::Message => 0x12,
        Command::ChannelRpc => 0x14,
        Command::CancelRequest => 0x15,
        Command::Unknown => UNKNOWN_COMMAND_CODE,
    }
}

impl Command {
    /// The command that a byte names; `Unknown` where it names none.
    pub fn from_byte(byte: u8) -> (c: Command)
        ensures
            c == command_of(byte),
    {
        match byte {
            0x00 => Command::Beacon,
            0x01 => Command::ConnectionValidation,
            0x02 => Command::Echo,
            0x03 => Command::Search,
            0x04 => Command::SearchResponse,
            0x07 => Command::CreateChannel,
            0x08 => Command::DestroyChannel,
            0x0A => Command::ChannelGet,
            0x0B => Command::ChannelPut,
            0x0C => Command::ChannelPutGet,
            0x0D => Command::ChannelMonitor,
            0x0E => Command::ChannelArray,
            0x0F => Command::DestroyRequest,
            0x10 => Command::ChannelProcess,
            0x11 => Command::GetField,
            0x12 => Command::Message,
            0x14 => Command::ChannelRpc,
            0x15 => Command::CancelRequest,
            _ => Command::Unknown,
        }
    }

    /// The byte that names this command on the wire.
    pub fn code(&self) -> (byte: u8)
        ensures
            byte == code_of(*self),
    {
        match self {
            Command::Beacon => 0x00,
            Command::ConnectionValidation => 0x01,
            Command::Echo => 0x02,
            Command::Search => 0x03,
            Command::SearchResponse => 0x04,
            Command::CreateChannel => 0x07,
            Command::DestroyChannel => 0x08,
            Command::ChannelGet => 0x0A,
            Command::ChannelPut => 0x0B,
            Command::ChannelPutGet => 0x0C,
            Command::ChannelMonitor => 0x0D,
            Command::ChannelArray => 0x0E,
            Command::DestroyRequest => 0x0F,
            Command::ChannelProcess => 0x10,
            Command::GetField => 0x11,
            Command::Message => 0x12,
            Command::ChannelRpc => 0x14,
            Command::CancelRequest => 0x15,
            Command::Unknown => UNKNOWN_COMMAND_CODE,
        }
    }
}

/// A command's byte names that command again.
pub proof fn lemma_command_code(command: Command)
    ensures
        command_of(code_of(command)) == command,
{
}

/// The header of one frame.
#[derive(Debug, Clone, Copy, PartialEq, Eq, Structural)]
pub struct PvAccessHeader {
    /// Always `MAGIC`.
    pub magic: u8,
    /// The protocol version of the sender.
    pub version: u8,
    /// Message kind, segmentation, direction and byte order.
    pub flags: PvHeaderFlags,
    /// What the payload is.
    pub message_command: Command,
    /// The length of the payload in bytes.
    pub payload_size: u32,
}

/// What the first bytes of a frame say.
///
/// A wrong magic byte is rejected as soon as it is seen; otherwise eight
/// bytes are needed. The payload size is read in the byte order that bit 7 of
/// the flags byte selects. A byte that names no command is no error.
pub open spec fn parse_header(s: Seq<u8>) -> Result<PvAccessHeader, FrameError> {
    if s.len() >= 1 && s[0] != MAGIC {
        Err(FrameError::InvalidMagic)
    } else if s.len() < 8 {
        Err(FrameError::ShortHeader)
    } else {
        Ok(
            PvAccessHeader {
                magic: s[0],
                version: s[1],
                flags: PvHeaderFlags::of(s[2]),
                message_command: command_of(s[3]),
                payload_size: u32_at(s.skip(4), s[2] & 0x80 != 0),
            },
        )
    }
}

impl PvAccessHeader {
    /// The length of a header in bytes.
    pub const LEN: usize = 8;

    /// The magic byte is right and no reserved flag is set.
    pub open spec fn wf(self) -> bool {
        self.magic == MAGIC && self.flags.wf()
    }

    /// The eight bytes of this header.
    pub open spec fn wire(self) -> Seq<u8> {
        seq![self.magic, self.version, self.flags.raw(), code_of(self.message_command)]
            + u32_bytes(self.payload_size, self.flags.big_endian())
    }

    /// A header of the current protocol version.
    pub fn new(flags: u8, message_command: Command, payload_size: u32) -> (h: PvAccessHeader)
        ensures
            h.magic == MAGIC,
            h.version == PROTOCOL_VERSION,
            h.flags == PvHeaderFlags::of(flags),
            h.message_command == message_command,
            h.payload_size == payload_size,
            h.wf(),
    {
        PvAccessHeader {
            magic: MAGIC,
            version: PROTOCOL_VERSION,
            flags: PvHeaderFlags::from_bits_truncate(flags),
            message_command,
            payload_size,
        }
    }

    /// Decodes the header at the start of `bytes`.
    pub fn from_bytes(bytes: &[u8]) -> (r: Result<PvAccessHeader, FrameError>)
        ensures
            r == parse_header(bytes@),
            r == Err::<PvAccessHeader, FrameError>(FrameError::InvalidMagic) <==> bytes@.len() >= 1
                && bytes@[0] != MAGIC,
            r matches Ok(h) ==> h.wf() && h.flags.big_endian() == (bytes@[2] & 0x80 != 0),
    {
        if bytes.len() >= 1 && bytes[0] != MAGIC {
            return Err(FrameError::InvalidMagic);
        }
        if bytes.len() < 8 {
            return Err(FrameError::ShortHeader);
        }
        let raw: u8 = bytes[2];
        let flags = PvHeaderFlags::from_bits_truncate(raw);
        assert((raw & 0xF1) & 0x80 == raw & 0x80) by (bit_vector);
        let payload_size: u32 = match read_u32(bytes, 4, flags.is_big_endian()) {
            Ok((n, _)) => n,
            Err(_) => 0,
        };
        Ok(
            PvAccessHeader {
                magic: bytes[0],
                version: bytes[1],
                flags,
                message_command: Command::from_byte(bytes[3]),
                payload_size,
            },
        )
    }

    /// The eight bytes of this header.
    pub fn to_bytes(&self) -> (out: Vec<u8>)
        ensures
            out@ == self.wire(),
            out@.len() == 8,
    {
        let mut out: Vec<u8> = Vec::new();
        out.push(self.magic);
        out.push(self.version);
        out.push(self.flags.bits());
        out.push(self.message_command.code());
        assert(out@ =~= seq![
            self.magic,
            self.version,
            self.flags.raw(),
            code_of(self.message_command),
        ]);
        put_u32(&mut out, self.payload_size, self.flags.is_big_endian());
        out
    }

    /// The command of the frame, or `UnknownCommand` where the command byte
    /// named none; such a frame is skipped.
    pub fn known_command(&self) -> (r: Result<Command, FrameError>)
        ensures
            self.message_command == Command::Unknown ==> r == Err::<Command, FrameError>(
                FrameError::UnknownCommand,
            ),
            self.message_command != Command::Unknown ==> r == Ok::<Command, FrameError>(
                self.message_command,
            ),
    {
        match self.message_command {
            Command::Unknown => Err(FrameError::UnknownCommand),
            c => Ok(c),
        }
    }

    /// Whether the frame is one segment of a longer message: an unsegmented
    /// frame is not.
    pub fn is_segmented(&self) -> (b: bool)
        ensures
            b == (self.flags.raw() & 0x30 != 0),
    {
        self.flags.bits() & 0x30 != 0
    }

    /// Whether the frame comes from a server.
    pub fn is_server_message(&self) -> (b: bool)
        ensures
            b == self.flags.from_server(),
    {
        self.flags.is_from_server()
    }

    /// Whether the frame comes from a server.
    pub fn is_from_server(&self) -> (b: bool)
        ensures
            b == self.flags.from_server(),
    {
        self.flags.is_from_server()
    }

    /// Whether the payload size and the body are big-endian.
    pub fn is_big_endian(&self) -> (b: bool)
        ensures
            b == self.flags.big_endian(),
    {
        self.flags.is_big_endian()
    }
}

/// Decoding the bytes of a header gives the header back.
pub proof fn lemma_header_roundtrip(h: PvAccessHeader)
    requires
        h.wf(),
    ensures
        h.wire().len() == 8,
        parse_header(h.wire()) == Ok::<PvAccessHeader, FrameError>(h),
{
    let s = h.wire();
    let raw = h.flags.raw();
    let big = h.flags.big_endian();
    let head = seq![h.magic, h.version, raw, code_of(h.message_command)];
    crate::wire::lemma_take_u32(h.payload_size, big, Seq::<u8>::empty());
    assert(u32_bytes(h.payload_size, big) + Seq::<u8>::empty() =~= u32_bytes(h.payload_size, big));
    assert(s.skip(4) =~= u32_bytes(h.payload_size, big));
    assert(s[0] == h.magic && s[1] == h.version && s[2] == raw && s[3] == code_of(
        h.message_command,
    ));
    lemma_command_code(h.message_command);
    PvHeaderFlags::lemma_raw(raw & KNOWN_FLAG_BITS);
    PvHeaderFlags::lemma_same_raw(PvHeaderFlags::of(raw), h.flags);
}

/// A header that was decoded is written back as the bytes it came from,
/// where they set no reserved flag and name a command.
pub proof fn lemma_header_bytes_roundtrip(s: Seq<u8>)
    requires
        s.len() == 8,
        parse_header(s) is Ok,
        s[2] & KNOWN_FLAG_BITS == s[2],
        command_of(s[3]) != Command::Unknown,
    ensures
        parse_header(s).unwrap().wire() == s,
{
    let h = parse_header(s).unwrap();
    let big = s[2] & 0x80 != 0;
    PvHeaderFlags::lemma_raw(s[2] & KNOWN_FLAG_BITS);
    crate::wire::lemma_u32_bytes_of(s.skip(4), big);
    assert(h.wire() =~= s);
}

} // verus!
