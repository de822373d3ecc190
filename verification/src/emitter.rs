//! The beacon emitter of a server: which beacon goes out next, and how long
//! to wait before the one after it.
//!
//! The first beacons go out in a burst, a short interval apart; from the end
//! of the burst on they go out a long interval apart. The sequence number
//! counts the beacons modulo 256. The transport sends the datagrams and
//! sleeps; a failed send changes nothing here.

use crate::frame::{frame_message, PvAccessFrame};
use crate::header::Command;
use crate::messages::beacon::{BeaconMessage, BeaconModel};
use crate::wire::{is_short_text, short_text};
use vstd::prelude::*;

verus! {

/// The two intervals of the emitter, in seconds.
#[derive(Debug, Clone, Copy, PartialEq, Eq, Structural)]
pub struct BeaconConfig {
    /// The interval between the beacons of the burst.
    pub udp_initial_interval: u64,
    /// The interval between the beacons after the burst.
    pub udp_long_term_interval: u64,
}

/// The number of beacons in the burst unless it is configured otherwise.
pub const DEFAULT_BURST: u32 = 15;

/// The flags of a beacon frame: big-endian, from the server, not segmented.
pub const BEACON_FRAME_FLAGS: u8 = 0xC0;

/// Which of the two intervals follows a beacon.
#[derive(Debug, Clone, Copy, PartialEq, Eq, Structural)]
pub enum Cadence {
    /// The short interval of the burst.
    Short,
    /// The long interval after the burst.
    Long,
}

/// The sequence number of the beacon that goes out `k` beacons after the one
/// with the number `start`.
pub open spec fn sequence_after(start: u8, k: nat) -> u8 {
    ((start + k) % 256) as u8
}

/// The interval that follows the beacon number `k`, counted from zero, of an
/// emitter whose burst has `burst` beacons.
pub open spec fn cadence_after(burst: nat, k: nat) -> Cadence {
    if k + 1 < burst {
        Cadence::Short
    } else {
        Cadence::Long
    }
}

/// One beacon that is due.
#[derive(Debug, Clone, PartialEq, Eq)]
pub struct Beat {
    /// The frame to be sent as one datagram.
    pub frame: PvAccessFrame,
    /// The sequence number that the beacon carries.
    pub sequence_id: u8,
    /// Which interval follows.
    pub cadence: Cadence,
    /// The seconds to wait before the next beacon.
    pub wait_seconds: u64,
}

/// The emitter.
#[derive(Debug, Clone, PartialEq, Eq)]
pub struct BeaconEmitter {
    template: BeaconMessage,
    config: BeaconConfig,
    burst_left: u32,
}

impl BeaconEmitter {
    /// The beacon that the emitter was made with, with the sequence number
    /// that is due next.
    pub closed spec fn template(self) -> BeaconModel {
        self.template@
    }

    /// How many beacons of the burst are still to be sent.
    pub closed spec fn burst_left(self) -> nat {
        self.burst_left as nat
    }

    /// The two intervals.
    pub closed spec fn config(self) -> BeaconConfig {
        self.config
    }

    /// The protocol name of the template fits behind its length, so that
    /// every beacon has an encoding.
    pub open spec fn wf(self) -> bool {
        self.template().wf() && self.template().encodable()
    }

    /// The sequence number that is due next.
    pub open spec fn next_sequence(self) -> u8 {
        self.template().beacon_sequence_id
    }

    /// Where the emitter stands.
    pub open spec fn model(self) -> EmitterModel {
        EmitterModel { next_sequence: self.next_sequence(), burst_left: self.burst_left() }
    }

    /// An emitter that sends `template` with a burst of `burst` beacons, or
    /// nothing where the protocol name of the template is too long for a
    /// beacon.
    pub fn new(template: BeaconMessage, config: BeaconConfig, burst: u32) -> (e: Option<
        BeaconEmitter,
    >)
        ensures
            e is Some <==> short_text(template@.protocol),
            e matches Some(x) ==> x.wf() && x.template() == template@ && x.config() == config
                && x.burst_left() == burst,
    {
        if !is_short_text(template.protocol.as_str()) {
            return None;
        }
        Some(BeaconEmitter { template, config, burst_left: burst })
    }

    /// The next beacon, in a frame of the protocol's version. It carries the
    /// sequence number that is due and the change count `change_count`,
    /// which is read when the beacon is sent.
    /// After it the sequence number is one higher modulo 256 and the burst
    /// one beacon shorter.
    pub fn emit(&mut self, change_count: u16) -> (beat: Beat)
        requires
            old(self).wf(),
        ensures
            final(self).wf(),
            final(self).config() == old(self).config(),
            final(self).model() == after_beat(old(self).model()),
            final(self).next_sequence() == sequence_after(old(self).next_sequence(), 1),
            final(self).burst_left() == if old(self).burst_left() == 0 {
                0
            } else {
                old(self).burst_left() - 1
            },
            final(self).template() == (BeaconModel {
                beacon_sequence_id: final(self).next_sequence(),
                change_count,
                ..old(self).template()
            }),
            beat.sequence_id == old(self).next_sequence(),
            beat.cadence == cadence_after(old(self).burst_left(), 0),
            beat.wait_seconds == if beat.cadence == Cadence::Short {
                old(self).config().udp_initial_interval
            } else {
                old(self).config().udp_long_term_interval
            },
            beat.frame.wf(),
            beat.frame.header.version == crate::header::PROTOCOL_VERSION,
            beat.frame.header.message_command == Command::Beacon,
            beat.frame.header.flags.raw() == BEACON_FRAME_FLAGS,
            beat.frame.payload@ == (BeaconModel {
                change_count,
                ..old(self).template()
            }).wire(true),
    {
        let sequence_id: u8 = self.template.beacon_sequence_id;
        self.template.change_count = change_count;
        assert(0xC0u8 & 0x80 != 0 && 0xC0u8 & 0xF1 == 0xC0) by (bit_vector);
        proof {
            crate::flags::PvHeaderFlags::lemma_raw(0xC0u8 & crate::flags::KNOWN_FLAG_BITS);
            crate::messages::beacon::lemma_beacon_length(self.template@, true);
        }
        let frame = match frame_message(&self.template, Command::Beacon, BEACON_FRAME_FLAGS) {
            Ok(f) => f,
            Err(_) => {
                assert(false);
                PvAccessFrame {
                    header: crate::header::PvAccessHeader::new(0, Command::Beacon, 0),
                    payload: Vec::new(),
                }
            },
        };
        let cadence = if self.burst_left > 1 {
            Cadence::Short
        } else {
            Cadence::Long
        };
        let wait_seconds: u64 = match cadence {
            Cadence::Short => self.config.udp_initial_interval,
            Cadence::Long => self.config.udp_long_term_interval,
        };
        self.template.beacon_sequence_id = sequence_id.wrapping_add(1);
        if self.burst_left > 0 {
            self.burst_left = self.burst_left - 1;
        }
        Beat { frame, sequence_id, cadence, wait_seconds }
    }
}

/// Where an emitter stands: the sequence number that is due and the beacons
/// of the burst that are still to be sent.
pub struct EmitterModel {
    pub next_sequence: u8,
    pub burst_left: nat,
}

/// The emitter after one beacon.
pub open spec fn after_beat(m: EmitterModel) -> EmitterModel {
    EmitterModel {
        next_sequence: sequence_after(m.next_sequence, 1),
        burst_left: if m.burst_left == 0 {
            0
        } else {
            (m.burst_left - 1) as nat
        },
    }
}

/// The emitter after `k` beacons.
pub open spec fn after_beats(m: EmitterModel, k: nat) -> EmitterModel
    decreases k,
{
    if k == 0 {
        m
    } else {
        after_beat(after_beats(m, (k - 1) as nat))
    }
}

/// The beacon number `k`, counted from zero, of an emitter carries the
/// sequence number that is `k` after the first one modulo 256. It is
/// followed by the short interval while beacons of the burst remain after
/// it, and by the long interval from the last beacon of the burst on.
pub proof fn lemma_beat(m: EmitterModel, k: nat)
    ensures
        after_beats(m, k).next_sequence == sequence_after(m.next_sequence, k),
        after_beats(m, k).burst_left == if k <= m.burst_left {
            m.burst_left - k
        } else {
            0
        },
        cadence_after(after_beats(m, k).burst_left, 0) == cadence_after(m.burst_left, k),
    decreases k,
{
    if k > 0 {
        lemma_beat(m, (k - 1) as nat);
    }
}

/// Counting on from a sequence number, beacon by beacon, is counting on by
/// the number of beacons.
pub proof fn lemma_sequence_steps(start: u8, k: nat)
    ensures
        sequence_after(start, 0) == start,
        sequence_after(sequence_after(start, k), 1) == sequence_after(start, k + 1),
{
}

/// The sequence numbers of up to 256 beacons in a row are all different.
pub proof fn lemma_sequence_distinct(start: u8, i: nat, j: nat)
    requires
        i < j,
        j - i < 256,
    ensures
        sequence_after(start, i) != sequence_after(start, j),
{
    let a = (start + i) as int;
    let b = (start + j) as int;
    if a % 256 == b % 256 {
        assert(a == 256 * (a / 256) + a % 256);
        assert(b == 256 * (b / 256) + b % 256);
        assert(b - a == 256 * (b / 256 - a / 256));
        assert(false);
    }
}

/// The burst is followed beacon by beacon: the interval after the beacon
/// number `k + 1` of a burst is the interval after the beacon number `k` of
/// a burst that is one beacon shorter.
pub proof fn lemma_cadence_steps(burst: nat, k: nat)
    ensures
        cadence_after(burst, k + 1) == cadence_after(
            if burst == 0 {
                0
            } else {
                (burst - 1) as nat
            },
            k,
        ),
        k + 1 < burst ==> cadence_after(burst, k) == Cadence::Short,
        k + 1 >= burst ==> cadence_after(burst, k) == Cadence::Long,
{
}

} // verus!
