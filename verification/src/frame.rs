//! Frames: a header and the payload that it announces, on a byte stream and
//! in a datagram.

use crate::error::{EncodeError, FrameError};
use crate::header::{parse_header, Command, PvAccessHeader, HEADER_LENGTH};
use crate::flags::PvHeaderFlags;
use crate::messages::into::ToBytes;
use vstd::prelude::*;
use vstd::slice::{slice_subrange, slice_to_vec};

verus! {

/// One frame.
#[derive(Debug, Clone, PartialEq, Eq)]
pub struct PvAccessFrame {
    /// The header.
    pub header: PvAccessHeader,
    /// The bytes of the body.
    pub payload: Vec<u8>,
}

impl PvAccessFrame {
    /// The header announces the payload that the frame carries.
    pub open spec fn wf(self) -> bool {
        self.header.wf() && self.header.payload_size == self.payload@.len()
    }

    /// The bytes of the frame: the header and then the payload.
    pub open spec fn wire(self) -> Seq<u8> {
        self.header.wire() + self.payload@
    }

    /// The bytes of the frame.
    pub fn to_bytes(&self) -> (out: Vec<u8>)
        ensures
            out@ == self.wire(),
            out@.len() == 8 + self.payload@.len(),
            self.wf() ==> out@.len() == 8 + self.header.payload_size,
    {
        let mut out = self.header.to_bytes();
        out.extend_from_slice(self.payload.as_slice());
        out
    }
}

/// What the start of a buffer holds: nothing yet, while fewer than eight
/// bytes are buffered or fewer than the header and the payload that it
/// announces; else the header, the payload and the bytes that follow the
/// frame. The header is looked at once its eight bytes are there: a wrong
/// magic byte is an error from then on, and not before.
pub open spec fn frame_at(buf: Seq<u8>) -> Result<
    Option<(PvAccessHeader, Seq<u8>, Seq<u8>)>,
    FrameError,
> {
    if buf.len() < 8 {
        Ok(None)
    } else {
        match parse_header(buf) {
            Err(e) => Err(e),
            Ok(h) => if buf.len() < 8 + h.payload_size {
                Ok(None)
            } else {
                Ok(Some((h, buf.subrange(8, 8 + h.payload_size), buf.skip(8 + h.payload_size))))
            },
        }
    }
}

/// While fewer than eight bytes are buffered the framer waits, whatever the
/// bytes are; and it waits while the payload that a header announces is not
/// complete.
pub proof fn lemma_framer_waits(buf: Seq<u8>)
    ensures
        buf.len() < 8 ==> frame_at(buf) == Ok::<
            Option<(PvAccessHeader, Seq<u8>, Seq<u8>)>,
            FrameError,
        >(None),
        buf.len() >= 8 && parse_header(buf) is Ok && buf.len() < 8 + parse_header(buf).unwrap().payload_size ==> frame_at(buf) == Ok::<
            Option<(PvAccessHeader, Seq<u8>, Seq<u8>)>,
            FrameError,
        >(None),
        frame_at(buf) is Err <==> buf.len() >= 8 && buf[0] != crate::header::MAGIC,
        frame_at(buf) is Err ==> frame_at(buf) == Err::<
            Option<(PvAccessHeader, Seq<u8>, Seq<u8>)>,
            FrameError,
        >(FrameError::InvalidMagic),
{
}

/// What a datagram holds: it is one frame, and what follows the payload is
/// not looked at. A datagram of fewer than eight bytes is too short for a
/// header, whatever its bytes are.
pub open spec fn datagram_frame(bytes: Seq<u8>) -> Result<(PvAccessHeader, Seq<u8>), FrameError> {
    if bytes.len() < 8 {
        Err(FrameError::ShortHeader)
    } else {
        match parse_header(bytes) {
            Err(e) => Err(e),
            Ok(h) => if bytes.len() < 8 + h.payload_size {
                Err(FrameError::PayloadTruncated)
            } else {
                Ok((h, bytes.subrange(8, 8 + h.payload_size)))
            },
        }
    }
}

/// A frame that was written is the next frame of the buffer, whatever
/// follows it.
pub proof fn lemma_frame_roundtrip(frame: PvAccessFrame, rest: Seq<u8>)
    requires
        frame.wf(),
    ensures
        frame.wire().len() == 8 + frame.header.payload_size,
        frame_at(frame.wire() + rest) == Ok::<
            Option<(PvAccessHeader, Seq<u8>, Seq<u8>)>,
            FrameError,
        >(Some((frame.header, frame.payload@, rest))),
        datagram_frame(frame.wire()) == Ok::<(PvAccessHeader, Seq<u8>), FrameError>(
            (frame.header, frame.payload@),
        ),
{
    let h = frame.header;
    let s = frame.wire() + rest;
    crate::header::lemma_header_roundtrip(h);
    lemma_header_prefix(h.wire(), frame.payload@ + rest);
    lemma_header_prefix(h.wire(), frame.payload@);
    crate::wire::lemma_concat_assoc(h.wire(), frame.payload@, rest);
    assert(s.subrange(8, 8 + h.payload_size) =~= frame.payload@);
    assert(s.skip(8 + h.payload_size) =~= rest);
    assert(frame.wire().subrange(8, 8 + h.payload_size) =~= frame.payload@);
}

/// What the first eight bytes say does not depend on what follows them.
pub proof fn lemma_header_prefix(head: Seq<u8>, tail: Seq<u8>)
    requires
        head.len() == 8,
    ensures
        parse_header(head + tail) == parse_header(head),
{
    let s = head + tail;
    assert(s[0] == head[0] && s[1] == head[1] && s[2] == head[2] && s[3] == head[3]);
    assert(s.skip(4)[0] == head.skip(4)[0] && s.skip(4)[1] == head.skip(4)[1] && s.skip(4)[2]
        == head.skip(4)[2] && s.skip(4)[3] == head.skip(4)[3]);
}

/// Looks for one frame at the start of `buf`. Where there is one, gives its
/// header and its length with the header; where more bytes are needed, which
/// is so for every buffer of fewer than eight bytes, gives nothing.
pub fn next_frame(buf: &[u8]) -> (r: Result<Option<(PvAccessHeader, usize)>, FrameError>)
    ensures
        match r {
            Ok(Some((h, total))) => total == 8 + h.payload_size && total <= buf@.len() && frame_at(
                buf@,
            ) == Ok::<Option<(PvAccessHeader, Seq<u8>, Seq<u8>)>, FrameError>(
                Some((h, buf@.subrange(8, total as int), buf@.skip(total as int))),
            ),
            Ok(None) => frame_at(buf@) == Ok::<
                Option<(PvAccessHeader, Seq<u8>, Seq<u8>)>,
                FrameError,
            >(None),
            Err(e) => frame_at(buf@) == Err::<
                Option<(PvAccessHeader, Seq<u8>, Seq<u8>)>,
                FrameError,
            >(e),
        },
{
    if buf.len() < HEADER_LENGTH {
        return Ok(None);
    }
    let h = match PvAccessHeader::from_bytes(buf) {
        Ok(h) => h,
        Err(e) => return Err(e),
    };
    let need: u64 = HEADER_LENGTH as u64 + h.payload_size as u64;
    if (buf.len() as u64) < need {
        return Ok(None);
    }
    Ok(Some((h, need as usize)))
}

/// Takes one datagram apart into the header and the payload of its frame.
pub fn read_datagram(bytes: &[u8]) -> (r: Result<(PvAccessHeader, Vec<u8>), FrameError>)
    ensures
        match r {
            Ok((h, body)) => datagram_frame(bytes@) == Ok::<(PvAccessHeader, Seq<u8>), FrameError>(
                (h, body@),
            ) && body@.len() == h.payload_size,
            Err(e) => datagram_frame(bytes@) == Err::<(PvAccessHeader, Seq<u8>), FrameError>(e),
        },
{
    if bytes.len() < HEADER_LENGTH {
        return Err(FrameError::ShortHeader);
    }
    let h = match PvAccessHeader::from_bytes(bytes) {
        Ok(h) => h,
        Err(e) => return Err(e),
    };
    let need: u64 = HEADER_LENGTH as u64 + h.payload_size as u64;
    if (bytes.len() as u64) < need {
        return Err(FrameError::PayloadTruncated);
    }
    let body = slice_to_vec(slice_subrange(bytes, HEADER_LENGTH, need as usize));
    Ok((h, body))
}

/// The stream framer: takes frames off the front of a buffer that the
/// transport fills.
pub struct PvAccessDecoder;

impl PvAccessDecoder {
    /// Takes the next frame off the front of `src`. Where the buffer does not
    /// hold a whole frame yet, it is left as it is and nothing is given; on
    /// an error it is left as it is too.
    pub fn decode(&mut self, src: &mut Vec<u8>) -> (r: Result<
        Option<(PvAccessHeader, Vec<u8>)>,
        FrameError,
    >)
        ensures
            match r {
                Ok(Some((h, body))) => frame_at(old(src)@) == Ok::<
                    Option<(PvAccessHeader, Seq<u8>, Seq<u8>)>,
                    FrameError,
                >(Some((h, body@, final(src)@))) && body@.len() == h.payload_size,
                Ok(None) => frame_at(old(src)@) == Ok::<
                    Option<(PvAccessHeader, Seq<u8>, Seq<u8>)>,
                    FrameError,
                >(None) && final(src)@ == old(src)@,
                Err(e) => frame_at(old(src)@) == Err::<
                    Option<(PvAccessHeader, Seq<u8>, Seq<u8>)>,
                    FrameError,
                >(e) && final(src)@ == old(src)@,
            },
    {
        let (h, total) = match next_frame(src.as_slice()) {
            Ok(Some(x)) => x,
            Ok(None) => return Ok(None),
            Err(e) => return Err(e),
        };
        let ghost whole = src@;
        let rest = src.split_off(total);
        let body = src.split_off(HEADER_LENGTH);
        *src = rest;
        assert(body@ =~= whole.subrange(8, total as int));
        assert(src@ =~= whole.skip(total as int));
        Ok(Some((h, body)))
    }
}

/// The stream writer: puts frames at the end of a buffer that the transport
/// drains.
pub struct PvAccessEncoder;

impl PvAccessEncoder {
    /// Appends the bytes of `item` to `dst`.
    pub fn encode(&mut self, item: &PvAccessFrame, dst: &mut Vec<u8>)
        ensures
            final(dst)@ == old(dst)@ + item.wire(),
            final(dst)@.len() == old(dst)@.len() + 8 + item.payload@.len(),
    {
        let bytes = item.to_bytes();
        dst.extend_from_slice(bytes.as_slice());
    }
}

/// The frame that carries the message `body` under the command `command`.
/// Bit 7 of `flags` selects the byte order of the body and of the payload
/// size; the reserved bits of `flags` are dropped.
pub fn frame_message<T: ToBytes>(body: &T, command: Command, flags: u8) -> (r: Result<
    PvAccessFrame,
    EncodeError,
>)
    ensures
        r is Ok <==> body.encodable() && body.wire(flags & 0x80 != 0).len() <= u32::MAX,
        r matches Ok(frame) ==> {
            &&& frame.wf()
            &&& frame.header.version == crate::header::PROTOCOL_VERSION
            &&& frame.header.flags == PvHeaderFlags::of(flags)
            &&& frame.header.message_command == command
            &&& frame.payload@ == body.wire(flags & 0x80 != 0)
        },
        r matches Err(e) ==> e == EncodeError::FieldTooLong,
{
    let big: bool = flags & 0x80 != 0;
    let payload = match body.to_bytes(big) {
        Ok(v) => v,
        Err(e) => return Err(e),
    };
    if payload.len() > u32::MAX as usize {
        return Err(EncodeError::FieldTooLong);
    }
    let header = PvAccessHeader::new(flags, command, payload.len() as u32);
    Ok(PvAccessFrame { header, payload })
}

/// A message body that can be put into a frame.
pub trait IntoPvAccessFrame: ToBytes + Sized {
    /// The frame that carries the message under the command `command`, as
    /// `frame_message` makes it.
    fn into_frame(self, command: Command, flags: u8) -> (r: Result<PvAccessFrame, EncodeError>)
        ensures
            r is Ok <==> self.encodable() && self.wire(flags & 0x80 != 0).len() <= u32::MAX,
            r matches Ok(frame) ==> {
                &&& frame.wf()
                &&& frame.header.version == crate::header::PROTOCOL_VERSION
                &&& frame.header.flags == PvHeaderFlags::of(flags)
                &&& frame.header.message_command == command
                &&& frame.payload@ == self.wire(flags & 0x80 != 0)
            },
            r matches Err(e) ==> e == EncodeError::FieldTooLong,
    ;
}

impl<T: ToBytes> IntoPvAccessFrame for T {
    fn into_frame(self, command: Command, flags: u8) -> (r: Result<PvAccessFrame, EncodeError>) {
        frame_message(&self, command, flags)
    }
}

/// What is being put together from the segments of one message.
pub struct Reassembler {
    pending: Option<(Command, Vec<u8>)>,
}

/// What the reassembler makes of one frame: the segments that it holds
/// afterwards, and the message that the frame completed, if it completed
/// one. A frame that is out of turn is a violation.
pub open spec fn reassemble(
    pending: Option<(Command, Seq<u8>)>,
    segment: crate::flags::Segment,
    command: Command,
    body: Seq<u8>,
) -> Result<(Option<(Command, Seq<u8>)>, Option<(Command, Seq<u8>)>), crate::error::ProtocolError> {
    match pending {
        None => match segment {
            crate::flags::Segment::Whole => Ok((None, Some((command, body)))),
            crate::flags::Segment::First => Ok((Some((command, body)), None)),
            _ => Err(crate::error::ProtocolError::SegmentationViolation),
        },
        Some((first, so_far)) => if first != command {
            Err(crate::error::ProtocolError::SegmentationViolation)
        } else {
            match segment {
                crate::flags::Segment::Middle => Ok((Some((command, so_far + body)), None)),
                crate::flags::Segment::Last => Ok((None, Some((command, so_far + body)))),
                _ => Err(crate::error::ProtocolError::SegmentationViolation),
            }
        },
    }
}

impl Reassembler {
    /// The segments that are held: the command of the first and the bytes of
    /// all of them so far.
    pub closed spec fn pending(self) -> Option<(Command, Seq<u8>)> {
        match self.pending {
            Some((command, bytes)) => Some((command, bytes@)),
            None => None,
        }
    }

    /// A reassembler that holds nothing.
    pub fn new() -> (r: Reassembler)
        ensures
            r.pending() is None,
    {
        Reassembler { pending: None }
    }

    /// Whether segments are held and the message is not complete.
    pub fn is_pending(&self) -> (b: bool)
        ensures
            b == self.pending() is Some,
    {
        self.pending.is_some()
    }

    /// Takes the body of one frame. An unsegmented frame is a message of its
    /// own. A first segment is held, middle segments of the same command are
    /// added to it, and the last segment completes the message. A frame that
    /// is out of turn is a `SegmentationViolation`, and what was held is
    /// dropped.
    pub fn push(&mut self, header: &PvAccessHeader, body: Vec<u8>) -> (r: Result<
        Option<(Command, Vec<u8>)>,
        crate::error::ProtocolError,
    >)
        ensures
            match reassemble(
                old(self).pending(),
                header.flags.segment(),
                header.message_command,
                body@,
            ) {
                Ok((held, done)) => final(self).pending() == held && r is Ok && match done {
                    Some((c, bytes)) => r.unwrap() is Some && r.unwrap().unwrap().0 == c
                        && r.unwrap().unwrap().1@ == bytes,
                    None => r.unwrap() is None,
                },
                Err(e) => r == Err::<Option<(Command, Vec<u8>)>, crate::error::ProtocolError>(e)
                    && final(self).pending() is None,
            },
    {
        let segment = header.flags.segmentation();
        let command = header.message_command;
        let held = self.pending.take();
        match held {
            None => match segment {
                crate::flags::Segment::Whole => Ok(Some((command, body))),
                crate::flags::Segment::First => {
                    self.pending = Some((command, body));
                    Ok(None)
                },
                _ => Err(crate::error::ProtocolError::SegmentationViolation),
            },
            Some((first, mut so_far)) => {
                proof {
                    crate::header::lemma_command_code(first);
                    crate::header::lemma_command_code(command);
                }
                if first.code() != command.code() {
                    return Err(crate::error::ProtocolError::SegmentationViolation);
                }
                match segment {
                    crate::flags::Segment::Middle => {
                        so_far.extend_from_slice(body.as_slice());
                        self.pending = Some((command, so_far));
                        Ok(None)
                    },
                    crate::flags::Segment::Last => {
                        so_far.extend_from_slice(body.as_slice());
                        Ok(Some((command, so_far)))
                    },
                    _ => Err(crate::error::ProtocolError::SegmentationViolation),
                }
            },
        }
    }
}

/// A message that was cut into a first, a middle and a last segment is put
/// together again as it was.
pub proof fn lemma_reassemble_three(command: Command, a: Seq<u8>, b: Seq<u8>, c: Seq<u8>)
    ensures
        ({
            let s1 = reassemble(None, crate::flags::Segment::First, command, a);
            let s2 = reassemble(s1.unwrap().0, crate::flags::Segment::Middle, command, b);
            let s3 = reassemble(s2.unwrap().0, crate::flags::Segment::Last, command, c);
            &&& s1 is Ok && s1.unwrap().1 is None
            &&& s2 is Ok && s2.unwrap().1 is None
            &&& s3 == Ok::<
                (Option<(Command, Seq<u8>)>, Option<(Command, Seq<u8>)>),
                crate::error::ProtocolError,
            >((None, Some((command, a + b + c))))
        }),
{
}

} // verus!
