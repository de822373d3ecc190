//! The echo request and its response: an opaque payload behind a 16-bit
//! length. The response repeats the payload of the request.

use crate::error::{DecodeError, EncodeError};
use crate::messages::into::ToBytes;
use crate::wire::{
    decoded, exact, finish, lemma_skip_zero, lemma_take_bytes, lemma_take_u16, put_bytes, put_u16,
    read_bytes, read_u16, take_bytes, take_u16, u16_bytes,
};
use vstd::prelude::*;

verus! {

/// The longest payload that the 16-bit length can announce.
pub const MAX_ECHO_PAYLOAD: usize = 0xFFFF;

/// The body that carries `payload`.
pub open spec fn echo_wire(payload: Seq<u8>, big: bool) -> Seq<u8> {
    u16_bytes(payload.len() as u16, big) + payload
}

/// A length, the payload of that length, and what follows.
pub open spec fn take_echo(s: Seq<u8>, big: bool) -> Result<(Seq<u8>, Seq<u8>), DecodeError> {
    match take_u16(s, big) {
        Err(e) => Err(e),
        Ok((n, s1)) => take_bytes(s1, n as nat),
    }
}

/// The payload of an echo body.
pub open spec fn parse_echo(s: Seq<u8>, big: bool) -> Result<Seq<u8>, DecodeError> {
    exact(take_echo(s, big))
}

/// Decoding the body of a payload that fits gives the payload back.
pub proof fn lemma_echo_roundtrip(payload: Seq<u8>, big: bool)
    requires
        payload.len() <= MAX_ECHO_PAYLOAD,
    ensures
        echo_wire(payload, big).len() == 2 + payload.len(),
        parse_echo(echo_wire(payload, big), big) == Ok::<Seq<u8>, DecodeError>(payload),
{
    let n = payload.len() as u16;
    lemma_take_u16(n, big, payload);
    lemma_take_bytes(payload, Seq::<u8>::empty());
    assert(payload + Seq::<u8>::empty() =~= payload);
}

fn encode(payload: &Vec<u8>, big: bool) -> (r: Result<Vec<u8>, EncodeError>)
    ensures
        r is Ok <==> payload@.len() <= MAX_ECHO_PAYLOAD,
        r matches Ok(v) ==> v@ == echo_wire(payload@, big),
        r matches Err(e) ==> e == EncodeError::FieldTooLong,
{
    if payload.len() > MAX_ECHO_PAYLOAD {
        return Err(EncodeError::FieldTooLong);
    }
    let mut out: Vec<u8> = Vec::new();
    put_u16(&mut out, payload.len() as u16, big);
    put_bytes(&mut out, payload.as_slice());
    assert(out@ =~= echo_wire(payload@, big));
    Ok(out)
}

fn decode(bytes: &[u8], big: bool) -> (r: Result<Vec<u8>, DecodeError>)
    ensures
        decoded(r, parse_echo(bytes@, big)),
{
    proof {
        lemma_skip_zero(bytes@);
    }
    let (n, p1) = match read_u16(bytes, 0, big) {
        Ok(x) => x,
        Err(e) => return Err(e),
    };
    let (payload, p2) = match read_bytes(bytes, p1, n as usize) {
        Ok(x) => x,
        Err(e) => return Err(e),
    };
    match finish(bytes, p2) {
        Ok(()) => Ok(payload),
        Err(e) => Err(e),
    }
}

/// An echo request.
#[derive(Debug, Clone, PartialEq, Eq)]
pub struct EchoMessage {
    /// The bytes to be repeated.
    pub random_bytes: Vec<u8>,
}

impl View for EchoMessage {
    type V = Seq<u8>;

    open spec fn view(&self) -> Seq<u8> {
        self.random_bytes@
    }
}

impl ToBytes for EchoMessage {
    open spec fn encodable(&self) -> bool {
        self@.len() <= MAX_ECHO_PAYLOAD
    }

    open spec fn wire(&self, big: bool) -> Seq<u8> {
        echo_wire(self@, big)
    }

    fn to_bytes(&self, is_big_endian: bool) -> (r: Result<Vec<u8>, EncodeError>) {
        EchoMessage::to_bytes(self, is_big_endian)
    }
}

impl EchoMessage {
    /// Encodes the body, or reports `FieldTooLong` and writes nothing where a
    /// field does not fit behind its length prefix.
    pub fn to_bytes(&self, is_big_endian: bool) -> (r: Result<Vec<u8>, EncodeError>)
        ensures
            r is Ok <==> self@.len() <= MAX_ECHO_PAYLOAD,
            r matches Ok(v) ==> v@ == echo_wire(self@, is_big_endian),
            r matches Err(e) ==> e == EncodeError::FieldTooLong,
    {
        encode(&self.random_bytes, is_big_endian)
    }

    /// Decodes the body of an echo request.
    pub fn from_bytes(bytes: &[u8], is_big_endian: bool) -> (r: Result<EchoMessage, DecodeError>)
        ensures
            decoded(r, parse_echo(bytes@, is_big_endian)),
    {
        match decode(bytes, is_big_endian) {
            Ok(random_bytes) => Ok(EchoMessage { random_bytes }),
            Err(e) => Err(e),
        }
    }
}

/// The response to an echo request.
#[derive(Debug, Clone, PartialEq, Eq)]
pub struct EchoResponse {
    /// The bytes of the request.
    pub repeated_bytes: Vec<u8>,
}

impl View for EchoResponse {
    type V = Seq<u8>;

    open spec fn view(&self) -> Seq<u8> {
        self.repeated_bytes@
    }
}

impl ToBytes for EchoResponse {
    open spec fn encodable(&self) -> bool {
        self@.len() <= MAX_ECHO_PAYLOAD
    }

    open spec fn wire(&self, big: bool) -> Seq<u8> {
        echo_wire(self@, big)
    }

    fn to_bytes(&self, is_big_endian: bool) -> (r: Result<Vec<u8>, EncodeError>) {
        EchoResponse::to_bytes(self, is_big_endian)
    }
}

impl EchoResponse {
    /// Encodes the body, or reports `FieldTooLong` and writes nothing where a
    /// field does not fit behind its length prefix.
    pub fn to_bytes(&self, is_big_endian: bool) -> (r: Result<Vec<u8>, EncodeError>)
        ensures
            r is Ok <==> self@.len() <= MAX_ECHO_PAYLOAD,
            r matches Ok(v) ==> v@ == echo_wire(self@, is_big_endian),
            r matches Err(e) ==> e == EncodeError::FieldTooLong,
    {
        encode(&self.repeated_bytes, is_big_endian)
    }

    /// The response to `request`: the same payload.
    pub fn answering(request: &EchoMessage) -> (response: EchoResponse)
        ensures
            response@ == request@,
    {
        EchoResponse { repeated_bytes: request.random_bytes.clone() }
    }

    /// Decodes the body of an echo response.
    pub fn from_bytes(bytes: &[u8], is_big_endian: bool) -> (r: Result<
        EchoResponse,
        DecodeError,
    >)
        ensures
            decoded(r, parse_echo(bytes@, is_big_endian)),
    {
        match decode(bytes, is_big_endian) {
            Ok(repeated_bytes) => Ok(EchoResponse { repeated_bytes }),
            Err(e) => Err(e),
        }
    }
}

/// A body that decodes is the body of the payload it holds: an echo has one
/// encoding only.
pub proof fn lemma_echo_canonical(s: Seq<u8>, big: bool)
    ensures
        parse_echo(s, big) matches Ok(payload) ==> payload.len() <= MAX_ECHO_PAYLOAD && echo_wire(
            payload,
            big,
        ) == s,
{
    if parse_echo(s, big) is Ok {
        let payload = parse_echo(s, big).unwrap();
        let n = crate::wire::u16_at(s, big);
        assert(payload == s.skip(2).take(n as int));
        assert(s.skip(2).skip(n as int).len() == 0);
        crate::wire::lemma_u16_bytes_of(s.take(2), big);
        assert(crate::wire::u16_at(s.take(2), big) == n);
        assert(echo_wire(payload, big) =~= s);
    }
}

} // verus!
