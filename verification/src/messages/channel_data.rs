//! The bodies that carry the data of a channel: the response to a get and
//! the request of a put.
//!
//! The data of the structure and the set of bits that says which of its
//! fields are meant are runs of bytes, each behind a 16-bit length. The bit
//! set of a response may be absent: it comes behind a byte that is one
//! where it is there and zero where it is not.

use crate::error::{DecodeError, EncodeError};
use crate::messages::echo::{echo_wire, take_echo, MAX_ECHO_PAYLOAD};
use crate::messages::status::{
    lemma_take_status, take_status, ResponseCompletionStatus, StatusModel,
};
use crate::wire::{
    decoded, exact, finish, lemma_concat_assoc, lemma_skip_zero, lemma_take_bytes,
    lemma_take_u16, lemma_take_u32, lemma_take_u8, put_bytes, put_u16, put_u32, put_u8,
    read_bytes, read_u16, read_u32, read_u8, take_u32, take_u8, u32_bytes,
};
use crate::messages::into::ToBytes;
use vstd::prelude::*;

verus! {

/// A run of bytes that was written behind its length is read back, whatever
/// follows.
pub proof fn lemma_take_block(block: Seq<u8>, big: bool, rest: Seq<u8>)
    requires
        block.len() <= MAX_ECHO_PAYLOAD,
    ensures
        take_echo(echo_wire(block, big) + rest, big) == Ok::<(Seq<u8>, Seq<u8>), DecodeError>(
            (block, rest),
        ),
{
    lemma_concat_assoc(crate::wire::u16_bytes(block.len() as u16, big), block, rest);
    lemma_take_u16(block.len() as u16, big, block + rest);
    lemma_take_bytes(block, rest);
}

fn put_block(out: &mut Vec<u8>, block: &Vec<u8>, big: bool)
    requires
        block@.len() <= MAX_ECHO_PAYLOAD,
    ensures
        final(out)@ == old(out)@ + echo_wire(block@, big),
{
    let ghost before = out@;
    put_u16(out, block.len() as u16, big);
    put_bytes(out, block.as_slice());
    proof {
        lemma_concat_assoc(before, crate::wire::u16_bytes(block@.len() as u16, big), block@);
    }
}

fn read_block(bytes: &[u8], pos: usize, big: bool) -> (r: Result<(Vec<u8>, usize), DecodeError>)
    requires
        pos <= bytes@.len(),
    ensures
        match r {
            Ok((v, next)) => next <= bytes@.len() && take_echo(bytes@.skip(pos as int), big)
                == Ok::<(Seq<u8>, Seq<u8>), DecodeError>((v@, bytes@.skip(next as int))),
            Err(e) => take_echo(bytes@.skip(pos as int), big) == Err::<
                (Seq<u8>, Seq<u8>),
                DecodeError,
            >(e),
        },
{
    let (n, p1) = match read_u16(bytes, pos, big) {
        Ok(x) => x,
        Err(e) => return Err(e),
    };
    read_bytes(bytes, p1, n as usize)
}

/// What the request of a put says.
pub struct PutModel {
    pub server_channel_id: u32,
    pub request_id: u32,
    pub subcommand: u8,
    pub pv_structure_data: Seq<u8>,
    pub to_put_bit_set: Seq<u8>,
}

impl PutModel {
    /// The data and the bit set fit behind their 16-bit lengths.
    pub open spec fn encodable(self) -> bool {
        self.pv_structure_data.len() <= MAX_ECHO_PAYLOAD && self.to_put_bit_set.len()
            <= MAX_ECHO_PAYLOAD
    }

    /// The body: the two numbers, the subcommand, the bit set and the data.
    pub open spec fn wire(self, big: bool) -> Seq<u8> {
        u32_bytes(self.server_channel_id, big) + u32_bytes(self.request_id, big) + seq![
            self.subcommand,
        ] + echo_wire(self.to_put_bit_set, big) + echo_wire(self.pv_structure_data, big)
    }
}

/// What the body of the request of a put says.
pub open spec fn parse_put(s: Seq<u8>, big: bool) -> Result<PutModel, DecodeError> {
    match take_u32(s, big) {
        Err(e) => Err(e),
        Ok((server_channel_id, s1)) => match take_u32(s1, big) {
            Err(e) => Err(e),
            Ok((request_id, s2)) => match take_u8(s2) {
                Err(e) => Err(e),
                Ok((subcommand, s3)) => match take_echo(s3, big) {
                    Err(e) => Err(e),
                    Ok((to_put_bit_set, s4)) => match exact(take_echo(s4, big)) {
                        Err(e) => Err(e),
                        Ok(pv_structure_data) => Ok(
                            PutModel {
                                server_channel_id,
                                request_id,
                                subcommand,
                                pv_structure_data,
                                to_put_bit_set,
                            },
                        ),
                    },
                },
            },
        },
    }
}

/// Decoding the body of the request of a put gives the request back.
pub proof fn lemma_put_roundtrip(m: PutModel, big: bool)
    requires
        m.encodable(),
    ensures
        parse_put(m.wire(big), big) == Ok::<PutModel, DecodeError>(m),
{
    let a = u32_bytes(m.server_channel_id, big);
    let b = u32_bytes(m.request_id, big);
    let c = seq![m.subcommand];
    let d = echo_wire(m.to_put_bit_set, big);
    let e = echo_wire(m.pv_structure_data, big);
    lemma_concat_assoc(a + b + c, d, e);
    lemma_concat_assoc(a + b, c, d + e);
    lemma_concat_assoc(a, b, c + (d + e));
    lemma_take_u32(m.server_channel_id, big, b + (c + (d + e)));
    lemma_take_u32(m.request_id, big, c + (d + e));
    lemma_take_u8(m.subcommand, d + e);
    lemma_take_block(m.to_put_bit_set, big, e);
    lemma_take_block(m.pv_structure_data, big, Seq::<u8>::empty());
    assert(e + Seq::<u8>::empty() =~= e);
}

/// The request of a put.
#[derive(Debug, Clone, PartialEq, Eq)]
pub struct ChannelPutRequest {
    /// The number that the server gave the channel.
    pub server_channel_id: u32,
    /// The number of the request.
    pub request_id: u32,
    /// The subcommand: zero for a put, `SUBCOMMAND_DESTROY` to end the
    /// request with it.
    pub subcommand: u8,
    /// The data of the structure.
    pub pv_structure_data: Vec<u8>,
    /// The bits of the fields that are to be put, eight to a byte.
    pub to_put_bit_set: Vec<u8>,
}

impl View for ChannelPutRequest {
    type V = PutModel;

    open spec fn view(&self) -> PutModel {
        PutModel {
            server_channel_id: self.server_channel_id,
            request_id: self.request_id,
            subcommand: self.subcommand,
            pv_structure_data: self.pv_structure_data@,
            to_put_bit_set: self.to_put_bit_set@,
        }
    }
}

impl ChannelPutRequest {
    /// Encodes the body, or reports `FieldTooLong` where the data or the bit
    /// set is too long.
    pub fn to_bytes(&self, is_big_endian: bool) -> (r: Result<Vec<u8>, EncodeError>)
        ensures
            r is Ok <==> self@.encodable(),
            r matches Ok(v) ==> v@ == self@.wire(is_big_endian),
            r matches Err(e) ==> e == EncodeError::FieldTooLong,
    {
        if self.pv_structure_data.len() > MAX_ECHO_PAYLOAD || self.to_put_bit_set.len()
            > MAX_ECHO_PAYLOAD {
            return Err(EncodeError::FieldTooLong);
        }
        let mut out: Vec<u8> = Vec::new();
        put_u32(&mut out, self.server_channel_id, is_big_endian);
        put_u32(&mut out, self.request_id, is_big_endian);
        put_u8(&mut out, self.subcommand);
        put_block(&mut out, &self.to_put_bit_set, is_big_endian);
        put_block(&mut out, &self.pv_structure_data, is_big_endian);
        assert(out@ =~= self@.wire(is_big_endian));
        Ok(out)
    }

    /// Decodes the body of the request of a put.
    pub fn from_bytes(bytes: &[u8], is_big_endian: bool) -> (r: Result<
        ChannelPutRequest,
        DecodeError,
    >)
        ensures
            decoded(r, parse_put(bytes@, is_big_endian)),
    {
        proof {
            lemma_skip_zero(bytes@);
        }
        let (server_channel_id, p1) = match read_u32(bytes, 0, is_big_endian) {
            Ok(x) => x,
            Err(e) => return Err(e),
        };
        let (request_id, p2) = match read_u32(bytes, p1, is_big_endian) {
            Ok(x) => x,
            Err(e) => return Err(e),
        };
        let (subcommand, p3) = match read_u8(bytes, p2) {
            Ok(x) => x,
            Err(e) => return Err(e),
        };
        let (to_put_bit_set, p4) = match read_block(bytes, p3, is_big_endian) {
            Ok(x) => x,
            Err(e) => return Err(e),
        };
        let (pv_structure_data, p5) = match read_block(bytes, p4, is_big_endian) {
            Ok(x) => x,
            Err(e) => return Err(e),
        };
        match finish(bytes, p5) {
            Ok(()) => Ok(
                ChannelPutRequest {
                    server_channel_id,
                    request_id,
                    subcommand,
                    pv_structure_data,
                    to_put_bit_set,
                },
            ),
            Err(e) => Err(e),
        }
    }
}

/// What the response to a get says.
pub struct GetModel {
    pub request_id: u32,
    pub subcommand: u8,
    pub status: StatusModel,
    pub changed_bit_set: Option<Seq<u8>>,
    pub pv_structure_data: Seq<u8>,
}

impl GetModel {
    /// The texts of the status, the bit set and the data fit behind their
    /// lengths.
    pub open spec fn encodable(self) -> bool {
        &&& self.status.encodable()
        &&& self.pv_structure_data.len() <= MAX_ECHO_PAYLOAD
        &&& self.changed_bit_set matches Some(bits) ==> bits.len() <= MAX_ECHO_PAYLOAD
    }

    /// The bytes of the bit set behind the byte that says whether there is
    /// one.
    pub open spec fn bit_set_wire(self, big: bool) -> Seq<u8> {
        match self.changed_bit_set {
            Some(bits) => seq![1u8] + echo_wire(bits, big),
            None => seq![0u8],
        }
    }

    /// The body: the request number, the subcommand, the status, the bit
    /// set and the data.
    pub open spec fn wire(self, big: bool) -> Seq<u8> {
        u32_bytes(self.request_id, big) + seq![self.subcommand] + self.status.wire()
            + self.bit_set_wire(big) + echo_wire(self.pv_structure_data, big)
    }
}

/// A bit set behind the byte that says whether there is one, and what
/// follows it.
pub open spec fn take_bit_set(s: Seq<u8>, big: bool) -> Result<
    (Option<Seq<u8>>, Seq<u8>),
    DecodeError,
> {
    match take_u8(s) {
        Err(e) => Err(e),
        Ok((flag, s1)) => if flag == 0 {
            Ok((None, s1))
        } else if flag == 1 {
            match take_echo(s1, big) {
                Err(e) => Err(e),
                Ok((bits, s2)) => Ok((Some(bits), s2)),
            }
        } else {
            Err(DecodeError::InvalidKind)
        },
    }
}

/// What the body of the response to a get says.
pub open spec fn parse_get(s: Seq<u8>, big: bool) -> Result<GetModel, DecodeError> {
    match take_u32(s, big) {
        Err(e) => Err(e),
        Ok((request_id, s1)) => match take_u8(s1) {
            Err(e) => Err(e),
            Ok((subcommand, s2)) => match take_status(s2) {
                Err(e) => Err(e),
                Ok((status, s3)) => match take_bit_set(s3, big) {
                    Err(e) => Err(e),
                    Ok((changed_bit_set, s4)) => match exact(take_echo(s4, big)) {
                        Err(e) => Err(e),
                        Ok(pv_structure_data) => Ok(
                            GetModel {
                                request_id,
                                subcommand,
                                status,
                                changed_bit_set,
                                pv_structure_data,
                            },
                        ),
                    },
                },
            },
        },
    }
}

/// Decoding the body of the response to a get gives the response back.
pub proof fn lemma_get_roundtrip(m: GetModel, big: bool)
    requires
        m.encodable(),
    ensures
        parse_get(m.wire(big), big) == Ok::<GetModel, DecodeError>(m),
{
    let a = u32_bytes(m.request_id, big);
    let b = seq![m.subcommand];
    let c = m.status.wire();
    let d = m.bit_set_wire(big);
    let e = echo_wire(m.pv_structure_data, big);
    lemma_concat_assoc(a + b + c, d, e);
    lemma_concat_assoc(a + b, c, d + e);
    lemma_concat_assoc(a, b, c + (d + e));
    lemma_take_u32(m.request_id, big, b + (c + (d + e)));
    lemma_take_u8(m.subcommand, c + (d + e));
    lemma_take_status(m.status, d + e);
    match m.changed_bit_set {
        Some(bits) => {
            lemma_concat_assoc(seq![1u8], echo_wire(bits, big), e);
            lemma_take_u8(1u8, echo_wire(bits, big) + e);
            lemma_take_block(bits, big, e);
        },
        None => {
            lemma_take_u8(0u8, e);
        },
    }
    lemma_take_block(m.pv_structure_data, big, Seq::<u8>::empty());
    assert(e + Seq::<u8>::empty() =~= e);
}

/// The response to a get.
#[derive(Debug, Clone, PartialEq, Eq)]
pub struct ChannelGetResponse {
    /// The number of the request.
    pub request_id: u32,
    /// The subcommand of the request that is answered.
    pub subcommand: u8,
    /// Whether the get went well.
    pub status: ResponseCompletionStatus,
    /// The bits of the fields that have changed, eight to a byte, where the
    /// server tells.
    pub changed_bit_set: Option<Vec<u8>>,
    /// The data of the structure.
    pub pv_structure_data: Vec<u8>,
}

impl View for ChannelGetResponse {
    type V = GetModel;

    open spec fn view(&self) -> GetModel {
        GetModel {
            request_id: self.request_id,
            subcommand: self.subcommand,
            status: self.status@,
            changed_bit_set: match self.changed_bit_set {
                Some(bits) => Some(bits@),
                None => None,
            },
            pv_structure_data: self.pv_structure_data@,
        }
    }
}

impl ChannelGetResponse {
    /// Encodes the body, or reports `FieldTooLong` where a text of the
    /// status, the bit set or the data is too long.
    pub fn to_bytes(&self, is_big_endian: bool) -> (r: Result<Vec<u8>, EncodeError>)
        ensures
            r is Ok <==> self@.encodable(),
            r matches Ok(v) ==> v@ == self@.wire(is_big_endian),
            r matches Err(e) ==> e == EncodeError::FieldTooLong,
    {
        if !self.status.is_encodable() || self.pv_structure_data.len() > MAX_ECHO_PAYLOAD {
            return Err(EncodeError::FieldTooLong);
        }
        match &self.changed_bit_set {
            Some(bits) => {
                if bits.len() > MAX_ECHO_PAYLOAD {
                    return Err(EncodeError::FieldTooLong);
                }
            },
            None => {},
        }
        let mut out: Vec<u8> = Vec::new();
        put_u32(&mut out, self.request_id, is_big_endian);
        put_u8(&mut out, self.subcommand);
        self.status.put(&mut out);
        let ghost head = out@;
        match &self.changed_bit_set {
            Some(bits) => {
                put_u8(&mut out, 1);
                put_block(&mut out, bits, is_big_endian);
                proof {
                    lemma_concat_assoc(head, seq![1u8], echo_wire(bits@, is_big_endian));
                }
            },
            None => {
                put_u8(&mut out, 0);
            },
        }
        assert(out@ == head + self@.bit_set_wire(is_big_endian));
        put_block(&mut out, &self.pv_structure_data, is_big_endian);
        Ok(out)
    }

    /// Decodes the body of the response to a get.
    pub fn from_bytes(bytes: &[u8], is_big_endian: bool) -> (r: Result<
        ChannelGetResponse,
        DecodeError,
    >)
        ensures
            decoded(r, parse_get(bytes@, is_big_endian)),
    {
        proof {
            lemma_skip_zero(bytes@);
        }
        let (request_id, p1) = match read_u32(bytes, 0, is_big_endian) {
            Ok(x) => x,
            Err(e) => return Err(e),
        };
        let (subcommand, p2) = match read_u8(bytes, p1) {
            Ok(x) => x,
            Err(e) => return Err(e),
        };
        let (status, p3) = match ResponseCompletionStatus::read(bytes, p2) {
            Ok(x) => x,
            Err(e) => return Err(e),
        };
        let (flag, p4) = match read_u8(bytes, p3) {
            Ok(x) => x,
            Err(e) => return Err(e),
        };
        let (changed_bit_set, p5) = if flag == 0 {
            (None, p4)
        } else if flag == 1 {
            match read_block(bytes, p4, is_big_endian) {
                Ok((bits, p)) => (Some(bits), p),
                Err(e) => return Err(e),
            }
        } else {
            return Err(DecodeError::InvalidKind);
        };
        let (pv_structure_data, p6) = match read_block(bytes, p5, is_big_endian) {
            Ok(x) => x,
            Err(e) => return Err(e),
        };
        match finish(bytes, p6) {
            Ok(()) => Ok(
                ChannelGetResponse {
                    request_id,
                    subcommand,
                    status,
                    changed_bit_set,
                    pv_structure_data,
                },
            ),
            Err(e) => Err(e),
        }
    }
}

impl ToBytes for ChannelPutRequest {
    open spec fn encodable(&self) -> bool {
        self@.encodable()
    }

    open spec fn wire(&self, big: bool) -> Seq<u8> {
        self@.wire(big)
    }

    fn to_bytes(&self, is_big_endian: bool) -> (r: Result<Vec<u8>, EncodeError>) {
        ChannelPutRequest::to_bytes(self, is_big_endian)
    }
}

impl ToBytes for ChannelGetResponse {
    open spec fn encodable(&self) -> bool {
        self@.encodable()
    }

    open spec fn wire(&self, big: bool) -> Seq<u8> {
        self@.wire(big)
    }

    fn to_bytes(&self, is_big_endian: bool) -> (r: Result<Vec<u8>, EncodeError>) {
        ChannelGetResponse::to_bytes(self, is_big_endian)
    }
}

} // verus!
