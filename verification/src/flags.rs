//! The flags byte of the frame header.
//!
//! Bit 0 tells a control message from an application message, bits 4 and 5
//! hold the segmentation state, bit 6 the direction and bit 7 the byte order
//! of every multi-byte field that follows. Bits 1 to 3 are reserved and are
//! never kept.

use vstd::prelude::*;

verus! {

/// The bits of the flags byte that have a meaning.
pub const KNOWN_FLAG_BITS: u8 = 0xF1;

/// The two segmentation bits.
pub const SEGMENT_MASK: u8 = 0x30;

/// Where a frame stands in a segmented message.
#[derive(Debug, Clone, Copy, PartialEq, Eq, Structural)]
pub enum Segment {
    /// The frame is a whole message.
    Whole,
    /// The frame opens a segmented message.
    First,
    /// The frame closes a segmented message.
    Last,
    /// The frame continues a segmented message.
    Middle,
}

/// A flags byte with its reserved bits cleared.
#[derive(Debug, Clone, Copy, PartialEq, Eq, Structural)]
pub struct PvHeaderFlags {
    bits: u8,
}

impl PvHeaderFlags {
    /// Bit 0: a control message.
    pub const CONTROL_MSG: u8 = 0x01;

    /// Bits 4 and 5 clear: not segmented.
    pub const SEGMENT_NONE: u8 = 0x00;

    /// Bits 4 and 5: the first segment.
    pub const SEGMENT_FIRST: u8 = 0x10;

    /// Bits 4 and 5: the last segment.
    pub const SEGMENT_LAST: u8 = 0x20;

    /// Bits 4 and 5: a segment in the middle.
    pub const SEGMENT_MIDDLE: u8 = 0x30;

    /// Bit 6 clear: sent by a client.
    pub const FROM_CLIENT: u8 = 0x00;

    /// Bit 6: sent by a server.
    pub const FROM_SERVER: u8 = 0x40;

    /// Bit 7 clear: little-endian fields.
    pub const LITTLE_ENDIAN: u8 = 0x00;

    /// Bit 7: big-endian fields.
    pub const BIG_ENDIAN: u8 = 0x80;

    /// The byte that these flags stand for.
    pub closed spec fn raw(self) -> u8 {
        self.bits
    }

    /// The flags that a byte stands for: the byte without its reserved bits.
    pub open spec fn of(byte: u8) -> PvHeaderFlags {
        PvHeaderFlags::with_raw(byte & KNOWN_FLAG_BITS)
    }

    /// The flags whose byte is `byte`.
    pub closed spec fn with_raw(byte: u8) -> PvHeaderFlags {
        PvHeaderFlags { bits: byte }
    }

    /// No reserved bit is set.
    pub open spec fn wf(self) -> bool {
        self.raw() & KNOWN_FLAG_BITS == self.raw()
    }

    /// Whether every bit of `mask` is set.
    pub open spec fn has(self, mask: u8) -> bool {
        self.raw() & mask == mask
    }

    /// Bit 7.
    pub open spec fn big_endian(self) -> bool {
        self.raw() & 0x80 != 0
    }

    /// Bit 6.
    pub open spec fn from_server(self) -> bool {
        self.raw() & 0x40 != 0
    }

    /// Bit 0.
    pub open spec fn control(self) -> bool {
        self.raw() & 0x01 != 0
    }

    /// Bits 4 and 5.
    pub open spec fn segment(self) -> Segment {
        let s = self.raw() & SEGMENT_MASK;
        if s == 0x00 {
            Segment::Whole
        } else if s == 0x10 {
            Segment::First
        } else if s == 0x20 {
            Segment::Last
        } else {
            Segment::Middle
        }
    }

    /// `with_raw` and `raw` undo each other.
    pub broadcast proof fn lemma_raw(byte: u8)
        ensures
            #[trigger] PvHeaderFlags::with_raw(byte).raw() == byte,
    {
    }

    /// Two sets of flags with the same byte are the same.
    pub proof fn lemma_same_raw(a: PvHeaderFlags, b: PvHeaderFlags)
        requires
            a.raw() == b.raw(),
        ensures
            a == b,
    {
    }

    /// Keeps the bits of `byte` that have a meaning and drops the rest.
    pub fn from_bits_truncate(byte: u8) -> (f: PvHeaderFlags)
        ensures
            f == PvHeaderFlags::of(byte),
            f.raw() == byte & KNOWN_FLAG_BITS,
            f.wf(),
    {
        assert((byte & 0xF1) & 0xF1 == byte & 0xF1) by (bit_vector);
        PvHeaderFlags { bits: byte & KNOWN_FLAG_BITS }
    }

    /// The flags of `byte` if it sets no reserved bit.
    pub fn from_bits(byte: u8) -> (f: Option<PvHeaderFlags>)
        ensures
            f is Some <==> byte & KNOWN_FLAG_BITS == byte,
            f matches Some(x) ==> x.raw() == byte && x.wf(),
    {
        if byte & KNOWN_FLAG_BITS == byte {
            Some(PvHeaderFlags { bits: byte })
        } else {
            None
        }
    }

    /// No bit set: an unsegmented little-endian application message of a
    /// client.
    pub fn empty() -> (f: PvHeaderFlags)
        ensures
            f.raw() == 0,
            f.wf(),
    {
        assert(0u8 & 0xF1 == 0u8) by (bit_vector);
        PvHeaderFlags { bits: 0 }
    }

    /// The byte that goes on the wire.
    pub fn bits(&self) -> (b: u8)
        ensures
            b == self.raw(),
    {
        self.bits
    }

    /// Whether every bit of `mask` is set.
    pub fn contains(&self, mask: u8) -> (b: bool)
        ensures
            b == self.has(mask),
    {
        self.bits & mask == mask
    }

    /// These flags with the meaningful bits of `mask` set as well.
    pub fn union(self, mask: u8) -> (f: PvHeaderFlags)
        ensures
            f.raw() == self.raw() | (mask & KNOWN_FLAG_BITS),
            self.wf() ==> f.wf(),
    {
        let a: u8 = self.bits;
        assert(a & 0xF1 == a ==> (a | (mask & 0xF1)) & 0xF1 == a | (mask & 0xF1)) by (bit_vector);
        PvHeaderFlags { bits: self.bits | (mask & KNOWN_FLAG_BITS) }
    }

    /// Bit 7: multi-byte fields are big-endian.
    pub fn is_big_endian(&self) -> (b: bool)
        ensures
            b == self.big_endian(),
    {
        self.bits & 0x80 != 0
    }

    /// Bit 6: the frame comes from a server.
    pub fn is_from_server(&self) -> (b: bool)
        ensures
            b == self.from_server(),
    {
        self.bits & 0x40 != 0
    }

    /// Bit 0: the frame is a control message.
    pub fn is_control(&self) -> (b: bool)
        ensures
            b == self.control(),
    {
        self.bits & 0x01 != 0
    }

    /// Bits 4 and 5: where the frame stands in a segmented message.
    pub fn segmentation(&self) -> (s: Segment)
        ensures
            s == self.segment(),
    {
        let s: u8 = self.bits & SEGMENT_MASK;
        if s == 0x00 {
            Segment::Whole
        } else if s == 0x10 {
            Segment::First
        } else if s == 0x20 {
            Segment::Last
        } else {
            Segment::Middle
        }
    }
}

} // verus!
