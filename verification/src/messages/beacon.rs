//! The beacon by which a server announces itself over UDP.
//!
//! Twelve bytes of server identifier, one byte of flags, one byte of sequence
//! number, two bytes of change count, sixteen bytes of address, two bytes of
//! port, the protocol name behind a one-byte length and one byte of status.

use crate::error::{DecodeError, EncodeError};
use crate::messages::into::ToBytes;
use crate::wire::{
    decoded, exact, finish, is_short_text, lemma_take_string, lemma_take_u16, lemma_take_u8,
    map_ipv4, put_bytes, put_string, put_u16, put_u8, read_array, read_string, read_u16, read_u8,
    short_text, string_bytes, take_string, take_u8, u16_at, u16_bytes,
};
use uuid::Uuid;
use vstd::prelude::*;

verus! {

/// The length of a server identifier in bytes.
pub const GUID_LENGTH: usize = 12;

/// The length of the part of a beacon that comes before the protocol name.
pub const BEACON_FIXED_LENGTH: usize = 34;

/// What a beacon says.
pub struct BeaconModel {
    pub guid: Seq<u8>,
    pub flags: u8,
    pub beacon_sequence_id: u8,
    pub change_count: u16,
    pub server_address: Seq<u8>,
    pub server_port: u16,
    pub protocol: Seq<char>,
    pub server_status_if: u8,
}

impl BeaconModel {
    /// The identifier has twelve bytes and the address sixteen.
    pub open spec fn wf(self) -> bool {
        self.guid.len() == 12 && self.server_address.len() == 16
    }

    /// The protocol name fits behind its one-byte length.
    pub open spec fn encodable(self) -> bool {
        short_text(self.protocol)
    }

    /// The body of the beacon.
    pub open spec fn wire(self, big: bool) -> Seq<u8> {
        self.guid + seq![self.flags, self.beacon_sequence_id] + u16_bytes(self.change_count, big)
            + self.server_address + u16_bytes(self.server_port, big) + string_bytes(self.protocol)
            + seq![self.server_status_if]
    }
}

/// What the body of a beacon says.
pub open spec fn parse_beacon(s: Seq<u8>, big: bool) -> Result<BeaconModel, DecodeError> {
    if s.len() < 34 {
        Err(DecodeError::Truncated)
    } else {
        match take_string(s.skip(34)) {
            Err(e) => Err(e),
            Ok((protocol, s1)) => match exact(take_u8(s1)) {
                Err(e) => Err(e),
                Ok(status) => Ok(
                    BeaconModel {
                        guid: s.subrange(0, 12),
                        flags: s[12],
                        beacon_sequence_id: s[13],
                        change_count: u16_at(s.skip(14), big),
                        server_address: s.subrange(16, 32),
                        server_port: u16_at(s.skip(32), big),
                        protocol,
                        server_status_if: status,
                    },
                ),
            },
        }
    }
}

/// Decoding the body of a beacon gives the beacon back.
pub proof fn lemma_beacon_roundtrip(m: BeaconModel, big: bool)
    requires
        m.wf(),
        m.encodable(),
    ensures
        parse_beacon(m.wire(big), big) == Ok::<BeaconModel, DecodeError>(m),
{
    let s = m.wire(big);
    let fixed = m.guid + seq![m.flags, m.beacon_sequence_id] + u16_bytes(m.change_count, big)
        + m.server_address + u16_bytes(m.server_port, big);
    let tail = seq![m.server_status_if];
    assert(fixed.len() == 34);
    assert(s =~= fixed + (string_bytes(m.protocol) + tail));
    assert(s.skip(34) =~= string_bytes(m.protocol) + tail);
    lemma_take_string(m.protocol, tail);
    lemma_take_u8(m.server_status_if, Seq::<u8>::empty());
    assert(tail + Seq::<u8>::empty() =~= tail);
    assert(s.subrange(0, 12) =~= m.guid);
    assert(s.subrange(16, 32) =~= m.server_address);
    lemma_take_u16(m.change_count, big, Seq::<u8>::empty());
    lemma_take_u16(m.server_port, big, Seq::<u8>::empty());
    let cc = u16_bytes(m.change_count, big);
    let port = u16_bytes(m.server_port, big);
    assert((cc + Seq::<u8>::empty())[0] == cc[0] && (cc + Seq::<u8>::empty())[1] == cc[1]);
    assert((port + Seq::<u8>::empty())[0] == port[0] && (port + Seq::<u8>::empty())[1] == port[1]);
    assert(s.skip(14)[0] == cc[0] && s.skip(14)[1] == cc[1]);
    assert(s.skip(32)[0] == port[0] && s.skip(32)[1] == port[1]);
    assert(s[12] == m.flags && s[13] == m.beacon_sequence_id);
}

/// A beacon.
#[derive(Debug, Clone, PartialEq, Eq)]
pub struct BeaconMessage {
    /// The identifier that the server drew when it started.
    pub guid: [u8; 12],
    /// Reserved; zero.
    pub flags: u8,
    /// The number of this beacon, counted modulo 256.
    pub beacon_sequence_id: u8,
    /// How often the list of channels has changed.
    pub change_count: u16,
    /// The address of the server; an IPv4 address in its mapped form.
    pub server_address: [u8; 16],
    /// The TCP port of the server.
    pub server_port: u16,
    /// The name of the transport, usually `tcp`.
    pub protocol: String,
    /// The status field; zero where there is none.
    pub server_status_if: u8,
}

impl View for BeaconMessage {
    type V = BeaconModel;

    open spec fn view(&self) -> BeaconModel {
        BeaconModel {
            guid: self.guid@,
            flags: self.flags,
            beacon_sequence_id: self.beacon_sequence_id,
            change_count: self.change_count,
            server_address: self.server_address@,
            server_port: self.server_port,
            protocol: self.protocol@,
            server_status_if: self.server_status_if,
        }
    }
}

impl ToBytes for BeaconMessage {
    open spec fn encodable(&self) -> bool {
        self@.encodable()
    }

    open spec fn wire(&self, big: bool) -> Seq<u8> {
        self@.wire(big)
    }

    fn to_bytes(&self, is_big_endian: bool) -> (r: Result<Vec<u8>, EncodeError>) {
        BeaconMessage::to_bytes(self, is_big_endian)
    }
}

impl BeaconMessage {
    /// Encodes the body, or reports `FieldTooLong` and writes nothing where a
    /// field does not fit behind its length prefix.
    pub fn to_bytes(&self, is_big_endian: bool) -> (r: Result<Vec<u8>, EncodeError>)
        ensures
            r is Ok <==> self@.encodable(),
            r matches Ok(v) ==> v@ == self@.wire(is_big_endian),
            r matches Err(e) ==> e == EncodeError::FieldTooLong,
    {
        if !is_short_text(self.protocol.as_str()) {
            return Err(EncodeError::FieldTooLong);
        }
        let mut out: Vec<u8> = Vec::new();
        put_bytes(&mut out, self.guid.as_slice());
        put_u8(&mut out, self.flags);
        put_u8(&mut out, self.beacon_sequence_id);
        put_u16(&mut out, self.change_count, is_big_endian);
        put_bytes(&mut out, self.server_address.as_slice());
        put_u16(&mut out, self.server_port, is_big_endian);
        put_string(&mut out, self.protocol.as_str());
        put_u8(&mut out, self.server_status_if);
        assert(out@ =~= self@.wire(is_big_endian));
        Ok(out)
    }

    /// The first beacon of a server that listens on `server_port` at the IPv4
    /// address `server_ip`: sequence number and change count zero, protocol
    /// `tcp`, no status, and as identifier the first twelve bytes of
    /// `server_uid`.
    pub fn new(server_port: u16, server_uid: [u8; 16], server_ip: [u8; 4]) -> (b: BeaconMessage)
        ensures
            b.guid@ == server_uid@.subrange(0, 12),
            b.flags == 0,
            b.beacon_sequence_id == 0,
            b.change_count == 0,
            b.server_address@ == crate::wire::ipv4_mapped(server_ip@),
            b.server_port == server_port,
            b.protocol@ == "tcp"@,
            b.server_status_if == 0,
            b@.wf(),
    {
        let guid: [u8; 12] = read_array::<12>(server_uid.as_slice(), 0);
        BeaconMessage {
            guid,
            flags: 0,
            beacon_sequence_id: 0,
            change_count: 0,
            server_address: map_ipv4(server_ip),
            server_port,
            protocol: "tcp".to_string(),
            server_status_if: 0,
        }
    }

    /// Decodes the body of a beacon.
    pub fn from_bytes(bytes: &[u8], is_big_endian: bool) -> (r: Result<BeaconMessage, DecodeError>)
        ensures
            decoded(r, parse_beacon(bytes@, is_big_endian)),
            r matches Ok(b) ==> b@.wf(),
    {
        if bytes.len() < BEACON_FIXED_LENGTH {
            return Err(DecodeError::Truncated);
        }
        let guid: [u8; 12] = read_array::<12>(bytes, 0);
        let flags: u8 = bytes[12];
        let beacon_sequence_id: u8 = bytes[13];
        let change_count: u16 = match read_u16(bytes, 14, is_big_endian) {
            Ok((n, _)) => n,
            Err(e) => return Err(e),
        };
        let server_address: [u8; 16] = read_array::<16>(bytes, 16);
        let server_port: u16 = match read_u16(bytes, 32, is_big_endian) {
            Ok((n, _)) => n,
            Err(e) => return Err(e),
        };
        let (protocol, p1) = match read_string(bytes, 34) {
            Ok(x) => x,
            Err(e) => return Err(e),
        };
        let (server_status_if, p2) = match read_u8(bytes, p1) {
            Ok(x) => x,
            Err(e) => return Err(e),
        };
        match finish(bytes, p2) {
            Ok(()) => {},
            Err(e) => return Err(e),
        }
        Ok(
            BeaconMessage {
                guid,
                flags,
                beacon_sequence_id,
                change_count,
                server_address,
                server_port,
                protocol,
                server_status_if,
            },
        )
    }
}

/// The body of a beacon that has an encoding has at most 292 bytes.
pub proof fn lemma_beacon_length(m: BeaconModel, big: bool)
    requires
        m.wf(),
        m.encodable(),
    ensures
        m.wire(big).len() == 36 + vstd::utf8::encode_utf8(m.protocol).len(),
        m.wire(big).len() <= 291,
{
}

/// `uuid::Uuid::new_v4` and `Uuid::into_bytes`: sixteen bytes drawn at
/// random, of which the high half of byte 6 says version four and the two
/// high bits of byte 8 say the standard variant. Nothing else is known of
/// them, and two calls need not agree.
#[verifier::external_body]
fn random_uuid() -> (out: [u8; 16])
    ensures
        out@[6] & 0xF0 == 0x40,
        out@[8] & 0xC0 == 0x80,
{
    Uuid::new_v4().into_bytes()
}

/// The identifier of a server: the first twelve of sixteen bytes.
pub fn guid_of(uid: &[u8; 16]) -> (guid: [u8; 12])
    ensures
        guid@ == uid@.subrange(0, 12),
{
    read_array::<12>(uid.as_slice(), 0)
}

/// An identifier for a server that starts: the first twelve bytes of a
/// value drawn at random.
pub fn fresh_guid() -> (guid: [u8; 12])
    ensures
        guid@[6] & 0xF0 == 0x40,
        guid@[8] & 0xC0 == 0x80,
{
    let uid = random_uuid();
    guid_of(&uid)
}

} // verus!
