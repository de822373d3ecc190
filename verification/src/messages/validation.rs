//! The validation handshake that opens every TCP session: the request of the
//! server and the response of the client.

use crate::error::{DecodeError, EncodeError};
use crate::messages::into::ToBytes;
use crate::wire::{
    are_short_texts, decoded, exact, finish, is_short_text, lemma_take_string, lemma_take_strings,
    lemma_u16_at, lemma_u32_at, list_wire, put_string, put_strings, put_u16, put_u32, put_u8,
    read_string, read_strings, read_u16, read_u32, short_text, short_texts, string_bytes,
    string_enc, string_item, take_list, take_string, u16_at, u16_bytes, u32_at, u32_bytes,
};
use vstd::prelude::*;

verus! {

/// The bits of the quality-of-service field that have a meaning.
pub const KNOWN_QOS_BITS: u16 = 0x077F;

/// The most mechanism names that the one-byte count can announce.
pub const MAX_MECHANISMS: usize = 0xFF;

/// Whether a quality-of-service field sets no bit without a meaning.
pub open spec fn valid_qos(bits: u16) -> bool {
    bits & KNOWN_QOS_BITS == bits
}

/// The quality of service that a client asks for: a priority in bits 0 to 6
/// and three switches in bits 8 to 10.
#[derive(Debug, Clone, Copy, PartialEq, Eq, Structural)]
pub struct ConnectionQoS {
    bits: u16,
}

impl View for ConnectionQoS {
    type V = u16;

    closed spec fn view(&self) -> u16 {
        self.bits
    }
}

impl ConnectionQoS {
    /// Bits 0 to 6: the priority.
    pub const PRIORITY_MASK: u16 = 0x007F;

    /// Bit 8: low latency is preferred.
    pub const LOW_LATENCY: u16 = 0x0100;

    /// Bit 9: throughput is preferred.
    pub const THROUGHPUT: u16 = 0x0200;

    /// Bit 10: compression is asked for.
    pub const ENABLE_COMPRESSION: u16 = 0x0400;

    /// The priority that a client asks for unless it is told otherwise.
    pub const DEFAULT_PRIORITY: u8 = 0;

    /// The value of `bits`, unless a bit without a meaning is set.
    pub fn from_bits(bits: u16) -> (q: Option<ConnectionQoS>)
        ensures
            q is Some <==> valid_qos(bits),
            q matches Some(x) ==> x@ == bits,
    {
        if bits & KNOWN_QOS_BITS == bits {
            Some(ConnectionQoS { bits })
        } else {
            None
        }
    }

    /// The value of `bits` without the bits that have no meaning.
    pub fn from_bits_truncate(bits: u16) -> (q: ConnectionQoS)
        ensures
            q@ == bits & KNOWN_QOS_BITS,
            valid_qos(q@),
    {
        assert((bits & 0x077F) & 0x077F == bits & 0x077F) by (bit_vector);
        ConnectionQoS { bits: bits & KNOWN_QOS_BITS }
    }

    /// Priority zero and no switch.
    pub fn empty() -> (q: ConnectionQoS)
        ensures
            q@ == 0,
            valid_qos(q@),
    {
        assert(0u16 & 0x077F == 0u16) by (bit_vector);
        ConnectionQoS { bits: 0 }
    }

    /// The sixteen bits that go on the wire.
    pub fn bits(&self) -> (b: u16)
        ensures
            b == self@,
    {
        self.bits
    }

    /// Whether every bit of `mask` is set.
    pub fn contains(&self, mask: u16) -> (b: bool)
        ensures
            b == (self@ & mask == mask),
    {
        self.bits & mask == mask
    }

    /// This value with the meaningful bits of `mask` set as well.
    pub fn union(self, mask: u16) -> (q: ConnectionQoS)
        ensures
            q@ == self@ | (mask & KNOWN_QOS_BITS),
            valid_qos(self@) ==> valid_qos(q@),
    {
        let a: u16 = self.bits;
        assert(a & 0x077F == a ==> (a | (mask & 0x077F)) & 0x077F == a | (mask & 0x077F))
            by (bit_vector);
        ConnectionQoS { bits: self.bits | (mask & KNOWN_QOS_BITS) }
    }

    /// The priority: bits 0 to 6.
    pub fn priority_level(self) -> (p: u8)
        ensures
            p == self@ & 0x7F,
            p <= 127,
    {
        let b: u16 = self.bits;
        assert(b & 0x7F <= 127) by (bit_vector);
        (self.bits & ConnectionQoS::PRIORITY_MASK) as u8
    }

    /// A value with no switch set whose priority is the low seven bits of
    /// `priority`.
    pub fn with_priority(priority: u8) -> (q: ConnectionQoS)
        ensures
            q@ == (priority & 0x7F) as u16,
            valid_qos(q@),
            priority <= 127 ==> q@ == priority,
    {
        assert((priority as u16) & 0x077F == (priority & 0x7F) as u16) by (bit_vector);
        assert(priority <= 127 ==> priority & 0x7F == priority) by (bit_vector);
        ConnectionQoS::from_bits_truncate(priority as u16)
    }
}

/// What a validation request says.
pub struct ValidationRequestModel {
    pub server_receive_buffer_size: u32,
    pub server_introspection_registry_max_size: u16,
    pub auth_nz: Seq<Seq<char>>,
}

impl ValidationRequestModel {
    /// The count and every name fit behind their one-byte lengths.
    pub open spec fn encodable(self) -> bool {
        self.auth_nz.len() <= MAX_MECHANISMS && short_texts(self.auth_nz)
    }

    /// The body of the request.
    pub open spec fn wire(self, big: bool) -> Seq<u8> {
        u32_bytes(self.server_receive_buffer_size, big) + u16_bytes(
            self.server_introspection_registry_max_size,
            big,
        ) + seq![self.auth_nz.len() as u8] + list_wire(string_enc(), self.auth_nz)
    }
}

/// What the body of a validation request says.
pub open spec fn parse_validation_request(s: Seq<u8>, big: bool) -> Result<
    ValidationRequestModel,
    DecodeError,
> {
    if s.len() < 7 {
        Err(DecodeError::Truncated)
    } else {
        match exact(take_list(string_item(), s.skip(7), s[6] as nat)) {
            Err(e) => Err(e),
            Ok(auth_nz) => Ok(
                ValidationRequestModel {
                    server_receive_buffer_size: u32_at(s.skip(0), big),
                    server_introspection_registry_max_size: u16_at(s.skip(4), big),
                    auth_nz,
                },
            ),
        }
    }
}

/// Decoding the body of a validation request gives the request back.
pub proof fn lemma_validation_request_roundtrip(m: ValidationRequestModel, big: bool)
    requires
        m.encodable(),
    ensures
        parse_validation_request(m.wire(big), big) == Ok::<ValidationRequestModel, DecodeError>(m),
{
    let s = m.wire(big);
    let size = u32_bytes(m.server_receive_buffer_size, big);
    let registry = u16_bytes(m.server_introspection_registry_max_size, big);
    let list = list_wire(string_enc(), m.auth_nz);
    assert(s.subrange(0, 4) =~= size);
    assert(s.subrange(4, 6) =~= registry);
    assert(s[6] == m.auth_nz.len() as u8);
    assert(s.skip(7) =~= list + Seq::<u8>::empty());
    lemma_u32_at(m.server_receive_buffer_size, big, s, 0);
    lemma_u16_at(m.server_introspection_registry_max_size, big, s, 4);
    lemma_take_strings(m.auth_nz, Seq::<u8>::empty());
}

/// The request that a server sends as soon as it has accepted a connection.
#[derive(Debug, Clone, PartialEq, Eq)]
pub struct ConnectionValidationRequest {
    /// The size of the server's receive buffer.
    pub server_receive_buffer_size: u32,
    /// How many type descriptors the server lets a peer cache.
    pub server_introspection_registry_max_size: u16,
    /// The names of the authentication mechanisms that the server offers.
    pub auth_nz: Vec<String>,
}

impl View for ConnectionValidationRequest {
    type V = ValidationRequestModel;

    open spec fn view(&self) -> ValidationRequestModel {
        ValidationRequestModel {
            server_receive_buffer_size: self.server_receive_buffer_size,
            server_introspection_registry_max_size: self.server_introspection_registry_max_size,
            auth_nz: self.auth_nz.deep_view(),
        }
    }
}

impl ToBytes for ConnectionValidationRequest {
    open spec fn encodable(&self) -> bool {
        self@.encodable()
    }

    open spec fn wire(&self, big: bool) -> Seq<u8> {
        self@.wire(big)
    }

    fn to_bytes(&self, is_big_endian: bool) -> (r: Result<Vec<u8>, EncodeError>) {
        ConnectionValidationRequest::to_bytes(self, is_big_endian)
    }
}

impl ConnectionValidationRequest {
    /// Encodes the body, or reports `FieldTooLong` and writes nothing where a
    /// field does not fit behind its length prefix.
    pub fn to_bytes(&self, is_big_endian: bool) -> (r: Result<Vec<u8>, EncodeError>)
        ensures
            r is Ok <==> self@.encodable(),
            r matches Ok(v) ==> v@ == self@.wire(is_big_endian),
            r matches Err(e) ==> e == EncodeError::FieldTooLong,
    {
        if self.auth_nz.len() > MAX_MECHANISMS || !are_short_texts(&self.auth_nz) {
            return Err(EncodeError::FieldTooLong);
        }
        let mut out: Vec<u8> = Vec::new();
        put_u32(&mut out, self.server_receive_buffer_size, is_big_endian);
        put_u16(&mut out, self.server_introspection_registry_max_size, is_big_endian);
        put_u8(&mut out, self.auth_nz.len() as u8);
        put_strings(&mut out, &self.auth_nz);
        assert(out@ =~= self@.wire(is_big_endian));
        Ok(out)
    }

    /// A request with the given sizes and mechanism names.
    pub fn new(
        server_receive_buffer_size: u32,
        server_introspection_registry_max_size: u16,
        auth_nz: Vec<String>,
    ) -> (m: ConnectionValidationRequest)
        ensures
            m.server_receive_buffer_size == server_receive_buffer_size,
            m.server_introspection_registry_max_size == server_introspection_registry_max_size,
            m.auth_nz == auth_nz,
    {
        ConnectionValidationRequest {
            server_receive_buffer_size,
            server_introspection_registry_max_size,
            auth_nz,
        }
    }

    /// Decodes the body of a validation request.
    pub fn from_bytes(bytes: &[u8], is_big_endian: bool) -> (r: Result<
        ConnectionValidationRequest,
        DecodeError,
    >)
        ensures
            decoded(r, parse_validation_request(bytes@, is_big_endian)),
    {
        if bytes.len() < 7 {
            return Err(DecodeError::Truncated);
        }
        let server_receive_buffer_size: u32 = match read_u32(bytes, 0, is_big_endian) {
            Ok((n, _)) => n,
            Err(e) => return Err(e),
        };
        let server_introspection_registry_max_size: u16 = match read_u16(bytes, 4, is_big_endian) {
            Ok((n, _)) => n,
            Err(e) => return Err(e),
        };
        let count: u8 = bytes[6];
        let (auth_nz, p1) = match read_strings(bytes, 7, count as usize) {
            Ok(x) => x,
            Err(e) => return Err(e),
        };
        match finish(bytes, p1) {
            Ok(()) => {},
            Err(e) => return Err(e),
        }
        Ok(
            ConnectionValidationRequest {
                server_receive_buffer_size,
                server_introspection_registry_max_size,
                auth_nz,
            },
        )
    }
}

/// What a validation response says.
pub struct ValidationResponseModel {
    pub client_receive_buffer_size: u32,
    pub client_introspection_registry_max_size: u16,
    pub connection_qos: u16,
    pub auth_nz: Seq<char>,
}

impl ValidationResponseModel {
    /// The quality-of-service field sets no bit without a meaning.
    pub open spec fn wf(self) -> bool {
        valid_qos(self.connection_qos)
    }

    /// The mechanism name fits behind its one-byte length.
    pub open spec fn encodable(self) -> bool {
        short_text(self.auth_nz)
    }

    /// The body of the response.
    pub open spec fn wire(self, big: bool) -> Seq<u8> {
        u32_bytes(self.client_receive_buffer_size, big) + u16_bytes(
            self.client_introspection_registry_max_size,
            big,
        ) + u16_bytes(self.connection_qos, big) + string_bytes(self.auth_nz)
    }
}

/// What the body of a validation response says. A quality-of-service field
/// with a bit that has no meaning is rejected before the mechanism name is
/// looked at.
pub open spec fn parse_validation_response(s: Seq<u8>, big: bool) -> Result<
    ValidationResponseModel,
    DecodeError,
> {
    if s.len() < 8 {
        Err(DecodeError::Truncated)
    } else if !valid_qos(u16_at(s.skip(6), big)) {
        Err(DecodeError::InvalidQos)
    } else {
        match exact(take_string(s.skip(8))) {
            Err(e) => Err(e),
            Ok(auth_nz) => Ok(
                ValidationResponseModel {
                    client_receive_buffer_size: u32_at(s.skip(0), big),
                    client_introspection_registry_max_size: u16_at(s.skip(4), big),
                    connection_qos: u16_at(s.skip(6), big),
                    auth_nz,
                },
            ),
        }
    }
}

/// Decoding the body of a validation response gives the response back.
pub proof fn lemma_validation_response_roundtrip(m: ValidationResponseModel, big: bool)
    requires
        m.wf(),
        m.encodable(),
    ensures
        parse_validation_response(m.wire(big), big) == Ok::<ValidationResponseModel, DecodeError>(
            m,
        ),
{
    let s = m.wire(big);
    assert(s.subrange(0, 4) =~= u32_bytes(m.client_receive_buffer_size, big));
    assert(s.subrange(4, 6) =~= u16_bytes(m.client_introspection_registry_max_size, big));
    assert(s.subrange(6, 8) =~= u16_bytes(m.connection_qos, big));
    assert(s.skip(8) =~= string_bytes(m.auth_nz) + Seq::<u8>::empty());
    lemma_u32_at(m.client_receive_buffer_size, big, s, 0);
    lemma_u16_at(m.client_introspection_registry_max_size, big, s, 4);
    lemma_u16_at(m.connection_qos, big, s, 6);
    lemma_take_string(m.auth_nz, Seq::<u8>::empty());
}

/// The response by which a client answers the validation request.
#[derive(Debug, Clone, PartialEq, Eq)]
pub struct ConnectionValidationResponse {
    /// The size of the client's receive buffer.
    pub client_receive_buffer_size: u32,
    /// How many type descriptors the client lets a peer cache.
    pub client_introspection_registry_max_size: u16,
    /// The quality of service that the client asks for.
    pub connection_qos: ConnectionQoS,
    /// The name of the authentication mechanism that the client chose.
    pub auth_nz: String,
}

impl View for ConnectionValidationResponse {
    type V = ValidationResponseModel;

    open spec fn view(&self) -> ValidationResponseModel {
        ValidationResponseModel {
            client_receive_buffer_size: self.client_receive_buffer_size,
            client_introspection_registry_max_size: self.client_introspection_registry_max_size,
            connection_qos: self.connection_qos@,
            auth_nz: self.auth_nz@,
        }
    }
}

impl ToBytes for ConnectionValidationResponse {
    open spec fn encodable(&self) -> bool {
        self@.encodable()
    }

    open spec fn wire(&self, big: bool) -> Seq<u8> {
        self@.wire(big)
    }

    fn to_bytes(&self, is_big_endian: bool) -> (r: Result<Vec<u8>, EncodeError>) {
        ConnectionValidationResponse::to_bytes(self, is_big_endian)
    }
}

impl ConnectionValidationResponse {
    /// Encodes the body, or reports `FieldTooLong` and writes nothing where a
    /// field does not fit behind its length prefix.
    pub fn to_bytes(&self, is_big_endian: bool) -> (r: Result<Vec<u8>, EncodeError>)
        ensures
            r is Ok <==> self@.encodable(),
            r matches Ok(v) ==> v@ == self@.wire(is_big_endian),
            r matches Err(e) ==> e == EncodeError::FieldTooLong,
    {
        if !is_short_text(self.auth_nz.as_str()) {
            return Err(EncodeError::FieldTooLong);
        }
        let mut out: Vec<u8> = Vec::new();
        put_u32(&mut out, self.client_receive_buffer_size, is_big_endian);
        put_u16(&mut out, self.client_introspection_registry_max_size, is_big_endian);
        put_u16(&mut out, self.connection_qos.bits(), is_big_endian);
        put_string(&mut out, self.auth_nz.as_str());
        assert(out@ =~= self@.wire(is_big_endian));
        Ok(out)
    }

    /// A response with the given sizes, quality of service and mechanism.
    pub fn new(
        client_receive_buffer_size: u32,
        client_introspection_registry_max_size: u16,
        connection_qos: ConnectionQoS,
        auth_nz: String,
    ) -> (m: ConnectionValidationResponse)
        ensures
            m.client_receive_buffer_size == client_receive_buffer_size,
            m.client_introspection_registry_max_size == client_introspection_registry_max_size,
            m.connection_qos == connection_qos,
            m.auth_nz == auth_nz,
    {
        ConnectionValidationResponse {
            client_receive_buffer_size,
            client_introspection_registry_max_size,
            connection_qos,
            auth_nz,
        }
    }

    /// Decodes the body of a validation response.
    pub fn from_bytes(bytes: &[u8], is_big_endian: bool) -> (r: Result<
        ConnectionValidationResponse,
        DecodeError,
    >)
        ensures
            decoded(r, parse_validation_response(bytes@, is_big_endian)),
            r matches Ok(m) ==> m@.wf(),
    {
        if bytes.len() < 8 {
            return Err(DecodeError::Truncated);
        }
        let client_receive_buffer_size: u32 = match read_u32(bytes, 0, is_big_endian) {
            Ok((n, _)) => n,
            Err(e) => return Err(e),
        };
        let client_introspection_registry_max_size: u16 = match read_u16(bytes, 4, is_big_endian) {
            Ok((n, _)) => n,
            Err(e) => return Err(e),
        };
        let qos_bits: u16 = match read_u16(bytes, 6, is_big_endian) {
            Ok((n, _)) => n,
            Err(e) => return Err(e),
        };
        let connection_qos = match ConnectionQoS::from_bits(qos_bits) {
            Some(q) => q,
            None => return Err(DecodeError::InvalidQos),
        };
        let (auth_nz, p1) = match read_string(bytes, 8) {
            Ok(x) => x,
            Err(e) => return Err(e),
        };
        match finish(bytes, p1) {
            Ok(()) => {},
            Err(e) => return Err(e),
        }
        Ok(
            ConnectionValidationResponse {
                client_receive_buffer_size,
                client_introspection_registry_max_size,
                connection_qos,
                auth_nz,
            },
        )
    }
}

} // verus!
