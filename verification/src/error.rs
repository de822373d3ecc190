//! The failures that the codecs and the session engines report.

use vstd::prelude::*;

verus! {

/// Why a frame could not be taken from a buffer or a datagram.
#[derive(Debug, Clone, Copy, PartialEq, Eq, Structural)]
pub enum FrameError {
    /// The first byte is not the protocol's magic byte.
    InvalidMagic,
    /// Fewer than eight bytes were offered where a header is due.
    ShortHeader,
    /// Fewer bytes follow the header than its payload size announces.
    PayloadTruncated,
    /// The command byte names no command of the protocol.
    UnknownCommand,
}

/// Why a message body could not be decoded.
#[derive(Debug, Clone, Copy, PartialEq, Eq, Structural)]
pub enum DecodeError {
    /// The body ends before a field that is due.
    Truncated,
    /// The bytes of a length-prefixed string are not UTF-8.
    MalformedString,
    /// The quality-of-service field has a bit set that has no meaning.
    InvalidQos,
    /// The tag byte of a field descriptor is not a legal one.
    InvalidFieldDescTag,
    /// Bytes remain after the last field.
    TrailingBytes,
    /// A byte that tells the kinds of a message or of a status apart holds a
    /// value that names none.
    InvalidKind,
}

/// Why a value has no encoding.
#[derive(Debug, Clone, Copy, PartialEq, Eq, Structural)]
pub enum EncodeError {
    /// A string, a list, a payload or a nested descriptor is longer than its
    /// length prefix can say, or a scalar type code is wider than the two
    /// bits that a tag has for it.
    FieldTooLong,
}

/// A violation of the session state machine.
#[derive(Debug, Clone, Copy, PartialEq, Eq, Structural)]
pub enum ProtocolError {
    /// A command arrived while another one was awaited.
    UnexpectedCommand,
    /// The peer did not answer the validation request in time.
    HandshakeTimeout,
    /// The segmentation bits of successive frames do not form
    /// NONE, or FIRST, MIDDLE..., LAST.
    SegmentationViolation,
}

} // verus!
