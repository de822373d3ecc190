//! The bodies that open and answer the operations on a channel: the
//! initialisation of a get, a put and a monitor, and their responses.
//!
//! An initialisation is a request on a channel, the type of the request
//! structure and the request structure itself, both as text behind a
//! one-byte length. A response is the number of the request, the
//! subcommand, the status and the type of the structure that the channel
//! holds. What may be absent comes behind a byte that is one where it is
//! there and zero where it is not.

use crate::error::{DecodeError, EncodeError};
use crate::messages::admin::{decode_status_response, encode_status_response, parse_status_response, StatusResponseModel};
use crate::messages::channel::ChannelGetRequest;
use crate::messages::status::{
    lemma_take_status, take_call_tree, take_status, ResponseCompletionStatus, StatusModel,
};
use crate::wire::{
    decoded, exact, finish, is_short_text, lemma_concat_assoc, lemma_skip_zero, lemma_take_string,
    lemma_take_u32, lemma_take_u8, put_string, put_u32, put_u8, read_string, read_u32, read_u8,
    short_text, string_bytes, take_string, take_u32, take_u8, u32_bytes,
};
use crate::messages::into::ToBytes;
use vstd::prelude::*;

verus! {

/// What an initialisation says.
pub struct InitModel {
    pub server_channel_id: u32,
    pub request_id: u32,
    pub subcommand: u8,
    pub pv_request_if: Seq<char>,
    pub pv_request: Seq<char>,
}

impl InitModel {
    /// Both texts fit behind their one-byte lengths.
    pub open spec fn encodable(self) -> bool {
        short_text(self.pv_request_if) && short_text(self.pv_request)
    }

    /// The body of the initialisation.
    pub open spec fn wire(self, big: bool) -> Seq<u8> {
        u32_bytes(self.server_channel_id, big) + u32_bytes(self.request_id, big) + seq![
            self.subcommand,
        ] + string_bytes(self.pv_request_if) + string_bytes(self.pv_request)
    }
}

/// An initialisation, and what follows it.
pub open spec fn take_init(s: Seq<u8>, big: bool) -> Result<(InitModel, Seq<u8>), DecodeError> {
    match take_u32(s, big) {
        Err(e) => Err(e),
        Ok((server_channel_id, s1)) => match take_u32(s1, big) {
            Err(e) => Err(e),
            Ok((request_id, s2)) => match take_u8(s2) {
                Err(e) => Err(e),
                Ok((subcommand, s3)) => match take_string(s3) {
                    Err(e) => Err(e),
                    Ok((pv_request_if, s4)) => match take_string(s4) {
                        Err(e) => Err(e),
                        Ok((pv_request, s5)) => Ok(
                            (
                                InitModel {
                                    server_channel_id,
                                    request_id,
                                    subcommand,
                                    pv_request_if,
                                    pv_request,
                                },
                                s5,
                            ),
                        ),
                    },
                },
            },
        },
    }
}

/// What the body of the initialisation of a get or a put says.
pub open spec fn parse_init(s: Seq<u8>, big: bool) -> Result<InitModel, DecodeError> {
    exact(take_init(s, big))
}

/// An initialisation that was written is read back, whatever follows.
pub proof fn lemma_take_init(m: InitModel, big: bool, rest: Seq<u8>)
    requires
        m.encodable(),
    ensures
        take_init(m.wire(big) + rest, big) == Ok::<(InitModel, Seq<u8>), DecodeError>((m, rest)),
{
    let a = u32_bytes(m.server_channel_id, big);
    let b = u32_bytes(m.request_id, big);
    let c = seq![m.subcommand];
    let d = string_bytes(m.pv_request_if);
    let e = string_bytes(m.pv_request);
    lemma_concat_assoc(a + b + c + d, e, rest);
    lemma_concat_assoc(a + b + c, d, e + rest);
    lemma_concat_assoc(a + b, c, d + (e + rest));
    lemma_concat_assoc(a, b, c + (d + (e + rest)));
    lemma_take_u32(m.server_channel_id, big, b + (c + (d + (e + rest))));
    lemma_take_u32(m.request_id, big, c + (d + (e + rest)));
    lemma_take_u8(m.subcommand, d + (e + rest));
    lemma_take_string(m.pv_request_if, e + rest);
    lemma_take_string(m.pv_request, rest);
}

/// Decoding the body of an initialisation gives the initialisation back.
pub proof fn lemma_init_roundtrip(m: InitModel, big: bool)
    requires
        m.encodable(),
    ensures
        parse_init(m.wire(big), big) == Ok::<InitModel, DecodeError>(m),
{
    lemma_take_init(m, big, Seq::<u8>::empty());
    assert(m.wire(big) + Seq::<u8>::empty() =~= m.wire(big));
}

fn put_init(
    out: &mut Vec<u8>,
    server_channel_id: u32,
    request_id: u32,
    subcommand: u8,
    pv_request_if: &String,
    pv_request: &String,
    big: bool,
) -> (r: Result<(), EncodeError>)
    requires
        old(out)@.len() == 0,
    ensures
        r is Ok <==> short_text(pv_request_if@) && short_text(pv_request@),
        r is Ok ==> final(out)@ == (InitModel {
            server_channel_id,
            request_id,
            subcommand,
            pv_request_if: pv_request_if@,
            pv_request: pv_request@,
        }).wire(big),
        r matches Err(e) ==> e == EncodeError::FieldTooLong,
{
    if !is_short_text(pv_request_if.as_str()) || !is_short_text(pv_request.as_str()) {
        return Err(EncodeError::FieldTooLong);
    }
    put_u32(out, server_channel_id, big);
    put_u32(out, request_id, big);
    put_u8(out, subcommand);
    put_string(out, pv_request_if.as_str());
    put_string(out, pv_request.as_str());
    assert(out@ =~= (InitModel {
        server_channel_id,
        request_id,
        subcommand,
        pv_request_if: pv_request_if@,
        pv_request: pv_request@,
    }).wire(big));
    Ok(())
}

fn read_init(bytes: &[u8], big: bool) -> (r: Result<
    ((u32, u32, u8, String, String), usize),
    DecodeError,
>)
    ensures
        match r {
            Ok((v, next)) => next <= bytes@.len() && take_init(bytes@, big) == Ok::<
                (InitModel, Seq<u8>),
                DecodeError,
            >(
                (
                    InitModel {
                        server_channel_id: v.0,
                        request_id: v.1,
                        subcommand: v.2,
                        pv_request_if: v.3@,
                        pv_request: v.4@,
                    },
                    bytes@.skip(next as int),
                ),
            ),
            Err(e) => take_init(bytes@, big) == Err::<(InitModel, Seq<u8>), DecodeError>(e),
        },
{
    proof {
        lemma_skip_zero(bytes@);
    }
    let (server_channel_id, p1) = match read_u32(bytes, 0, big) {
        Ok(x) => x,
        Err(e) => return Err(e),
    };
    let (request_id, p2) = match read_u32(bytes, p1, big) {
        Ok(x) => x,
        Err(e) => return Err(e),
    };
    let (subcommand, p3) = match read_u8(bytes, p2) {
        Ok(x) => x,
        Err(e) => return Err(e),
    };
    let (pv_request_if, p4) = match read_string(bytes, p3) {
        Ok(x) => x,
        Err(e) => return Err(e),
    };
    let (pv_request, p5) = match read_string(bytes, p4) {
        Ok(x) => x,
        Err(e) => return Err(e),
    };
    Ok(((server_channel_id, request_id, subcommand, pv_request_if, pv_request), p5))
}

/// The initialisation of a get.
#[derive(Debug, Clone, PartialEq, Eq)]
pub struct ChannelGetRequestInit {
    /// The number that the server gave the channel.
    pub server_channel_id: u32,
    /// The number of the request.
    pub request_id: u32,
    /// The subcommand; `SUBCOMMAND_INIT` for an initialisation.
    pub subcommand: u8,
    /// The type of the request structure.
    pub pv_request_if: String,
    /// The request structure.
    pub pv_request: String,
}

impl View for ChannelGetRequestInit {
    type V = InitModel;

    open spec fn view(&self) -> InitModel {
        InitModel {
            server_channel_id: self.server_channel_id,
            request_id: self.request_id,
            subcommand: self.subcommand,
            pv_request_if: self.pv_request_if@,
            pv_request: self.pv_request@,
        }
    }
}

impl ChannelGetRequestInit {
    /// What the initialisation starts with.
    pub fn request(&self) -> (r: ChannelGetRequest)
        ensures
            r.server_channel_id == self.server_channel_id,
            r.request_id == self.request_id,
            r.subcommand == self.subcommand,
    {
        ChannelGetRequest {
            server_channel_id: self.server_channel_id,
            request_id: self.request_id,
            subcommand: self.subcommand,
        }
    }

    /// Encodes the body, or reports `FieldTooLong` where a text is too long.
    pub fn to_bytes(&self, is_big_endian: bool) -> (r: Result<Vec<u8>, EncodeError>)
        ensures
            r is Ok <==> self@.encodable(),
            r matches Ok(v) ==> v@ == self@.wire(is_big_endian),
            r matches Err(e) ==> e == EncodeError::FieldTooLong,
    {
        let mut out: Vec<u8> = Vec::new();
        match put_init(
            &mut out,
            self.server_channel_id,
            self.request_id,
            self.subcommand,
            &self.pv_request_if,
            &self.pv_request,
            is_big_endian,
        ) {
            Ok(()) => Ok(out),
            Err(e) => Err(e),
        }
    }

    /// Decodes the body of the initialisation of a get.
    pub fn from_bytes(bytes: &[u8], is_big_endian: bool) -> (r: Result<
        ChannelGetRequestInit,
        DecodeError,
    >)
        ensures
            decoded(r, parse_init(bytes@, is_big_endian)),
    {
        let (v, next) = match read_init(bytes, is_big_endian) {
            Ok(x) => x,
            Err(e) => return Err(e),
        };
        match finish(bytes, next) {
            Ok(()) => Ok(
                ChannelGetRequestInit {
                    server_channel_id: v.0,
                    request_id: v.1,
                    subcommand: v.2,
                    pv_request_if: v.3,
                    pv_request: v.4,
                },
            ),
            Err(e) => Err(e),
        }
    }
}

/// The initialisation of a put.
#[derive(Debug, Clone, PartialEq, Eq)]
pub struct ChannelPutRequestInit {
    /// The number that the server gave the channel.
    pub server_channel_id: u32,
    /// The number of the request.
    pub request_id: u32,
    /// The subcommand; `SUBCOMMAND_INIT` for an initialisation.
    pub subcommand: u8,
    /// The type of the request structure.
    pub pv_request_if: String,
    /// The request structure.
    pub pv_request: String,
}

impl View for ChannelPutRequestInit {
    type V = InitModel;

    open spec fn view(&self) -> InitModel {
        InitModel {
            server_channel_id: self.server_channel_id,
            request_id: self.request_id,
            subcommand: self.subcommand,
            pv_request_if: self.pv_request_if@,
            pv_request: self.pv_request@,
        }
    }
}

impl ChannelPutRequestInit {
    /// Encodes the body, or reports `FieldTooLong` where a text is too long.
    pub fn to_bytes(&self, is_big_endian: bool) -> (r: Result<Vec<u8>, EncodeError>)
        ensures
            r is Ok <==> self@.encodable(),
            r matches Ok(v) ==> v@ == self@.wire(is_big_endian),
            r matches Err(e) ==> e == EncodeError::FieldTooLong,
    {
        let mut out: Vec<u8> = Vec::new();
        match put_init(
            &mut out,
            self.server_channel_id,
            self.request_id,
            self.subcommand,
            &self.pv_request_if,
            &self.pv_request,
            is_big_endian,
        ) {
            Ok(()) => Ok(out),
            Err(e) => Err(e),
        }
    }

    /// Decodes the body of the initialisation of a put.
    pub fn from_bytes(bytes: &[u8], is_big_endian: bool) -> (r: Result<
        ChannelPutRequestInit,
        DecodeError,
    >)
        ensures
            decoded(r, parse_init(bytes@, is_big_endian)),
    {
        let (v, next) = match read_init(bytes, is_big_endian) {
            Ok(x) => x,
            Err(e) => return Err(e),
        };
        match finish(bytes, next) {
            Ok(()) => Ok(
                ChannelPutRequestInit {
                    server_channel_id: v.0,
                    request_id: v.1,
                    subcommand: v.2,
                    pv_request_if: v.3,
                    pv_request: v.4,
                },
            ),
            Err(e) => Err(e),
        }
    }
}

/// What the initialisation of a monitor says.
pub struct MonitorInitModel {
    pub init: InitModel,
    pub queue_size: Option<u32>,
}

impl MonitorInitModel {
    /// The body: the initialisation, and the queue size behind the byte that
    /// says whether there is one.
    pub open spec fn wire(self, big: bool) -> Seq<u8> {
        self.init.wire(big) + match self.queue_size {
            Some(n) => seq![1u8] + u32_bytes(n, big),
            None => seq![0u8],
        }
    }
}

/// A queue size behind the byte that says whether there is one, and nothing
/// after it.
pub open spec fn parse_queue_size(s: Seq<u8>, big: bool) -> Result<Option<u32>, DecodeError> {
    match take_u8(s) {
        Err(e) => Err(e),
        Ok((flag, s1)) => if flag == 0 {
            exact(Ok::<(Option<u32>, Seq<u8>), DecodeError>((None, s1)))
        } else if flag == 1 {
            match exact(take_u32(s1, big)) {
                Err(e) => Err(e),
                Ok(n) => Ok(Some(n)),
            }
        } else {
            Err(DecodeError::InvalidKind)
        },
    }
}

/// What the body of the initialisation of a monitor says.
pub open spec fn parse_monitor_init(s: Seq<u8>, big: bool) -> Result<
    MonitorInitModel,
    DecodeError,
> {
    match take_init(s, big) {
        Err(e) => Err(e),
        Ok((init, s1)) => match parse_queue_size(s1, big) {
            Err(e) => Err(e),
            Ok(queue_size) => Ok(MonitorInitModel { init, queue_size }),
        },
    }
}

/// Decoding the body of the initialisation of a monitor gives the
/// initialisation back.
pub proof fn lemma_monitor_init_roundtrip(m: MonitorInitModel, big: bool)
    requires
        m.init.encodable(),
    ensures
        parse_monitor_init(m.wire(big), big) == Ok::<MonitorInitModel, DecodeError>(m),
{
    let tail = match m.queue_size {
        Some(n) => seq![1u8] + u32_bytes(n, big),
        None => seq![0u8],
    };
    lemma_take_init(m.init, big, tail);
    match m.queue_size {
        Some(n) => {
            lemma_take_u8(1u8, u32_bytes(n, big));
            lemma_take_u32(n, big, Seq::<u8>::empty());
            assert(u32_bytes(n, big) + Seq::<u8>::empty() =~= u32_bytes(n, big));
        },
        None => {
            lemma_take_u8(0u8, Seq::<u8>::empty());
            assert(seq![0u8] + Seq::<u8>::empty() =~= seq![0u8]);
        },
    }
}

/// The initialisation of a monitor.
#[derive(Debug, Clone, PartialEq, Eq)]
pub struct ChannelMonitorRequestInit {
    /// The number that the server gave the channel.
    pub server_channel_id: u32,
    /// The number of the request.
    pub request_id: u32,
    /// The subcommand; `SUBCOMMAND_INIT` for an initialisation.
    pub subcommand: u8,
    /// The type of the request structure.
    pub pv_request_if: String,
    /// The request structure.
    pub pv_request: String,
    /// How many updates the server may queue, where the client says so.
    pub queue_size: Option<u32>,
}

impl View for ChannelMonitorRequestInit {
    type V = MonitorInitModel;

    open spec fn view(&self) -> MonitorInitModel {
        MonitorInitModel {
            init: InitModel {
                server_channel_id: self.server_channel_id,
                request_id: self.request_id,
                subcommand: self.subcommand,
                pv_request_if: self.pv_request_if@,
                pv_request: self.pv_request@,
            },
            queue_size: self.queue_size,
        }
    }
}

impl ChannelMonitorRequestInit {
    /// Encodes the body, or reports `FieldTooLong` where a text is too long.
    pub fn to_bytes(&self, is_big_endian: bool) -> (r: Result<Vec<u8>, EncodeError>)
        ensures
            r is Ok <==> self@.init.encodable(),
            r matches Ok(v) ==> v@ == self@.wire(is_big_endian),
            r matches Err(e) ==> e == EncodeError::FieldTooLong,
    {
        let mut out: Vec<u8> = Vec::new();
        match put_init(
            &mut out,
            self.server_channel_id,
            self.request_id,
            self.subcommand,
            &self.pv_request_if,
            &self.pv_request,
            is_big_endian,
        ) {
            Ok(()) => {},
            Err(e) => return Err(e),
        }
        let ghost head = out@;
        match self.queue_size {
            Some(n) => {
                put_u8(&mut out, 1);
                put_u32(&mut out, n, is_big_endian);
                proof {
                    lemma_concat_assoc(head, seq![1u8], u32_bytes(n, is_big_endian));
                }
            },
            None => {
                put_u8(&mut out, 0);
            },
        }
        Ok(out)
    }

    /// Decodes the body of the initialisation of a monitor.
    pub fn from_bytes(bytes: &[u8], is_big_endian: bool) -> (r: Result<
        ChannelMonitorRequestInit,
        DecodeError,
    >)
        ensures
            decoded(r, parse_monitor_init(bytes@, is_big_endian)),
    {
        let (v, p1) = match read_init(bytes, is_big_endian) {
            Ok(x) => x,
            Err(e) => return Err(e),
        };
        let (flag, p2) = match read_u8(bytes, p1) {
            Ok(x) => x,
            Err(e) => return Err(e),
        };
        let (queue_size, p3) = if flag == 0 {
            (None, p2)
        } else if flag == 1 {
            match read_u32(bytes, p2, is_big_endian) {
                Ok((n, p)) => (Some(n), p),
                Err(e) => return Err(e),
            }
        } else {
            return Err(DecodeError::InvalidKind);
        };
        match finish(bytes, p3) {
            Ok(()) => Ok(
                ChannelMonitorRequestInit {
                    server_channel_id: v.0,
                    request_id: v.1,
                    subcommand: v.2,
                    pv_request_if: v.3,
                    pv_request: v.4,
                    queue_size,
                },
            ),
            Err(e) => Err(e),
        }
    }
}

/// The response to a put.
#[derive(Debug, Clone, PartialEq, Eq)]
pub struct ChannelPutResponse {
    /// The number of the request.
    pub request_id: u32,
    /// The subcommand of the request that is answered.
    pub subcommand: u8,
    /// Whether the put went well.
    pub status: ResponseCompletionStatus,
}

impl View for ChannelPutResponse {
    type V = StatusResponseModel;

    open spec fn view(&self) -> StatusResponseModel {
        StatusResponseModel {
            request_id: self.request_id,
            subcommand: self.subcommand,
            status: self.status@,
        }
    }
}

impl ChannelPutResponse {
    /// Encodes the body, or reports `FieldTooLong` where a text of the status
    /// is too long.
    pub fn to_bytes(&self, is_big_endian: bool) -> (r: Result<Vec<u8>, EncodeError>)
        ensures
            r is Ok <==> self@.status.encodable(),
            r matches Ok(v) ==> v@ == self@.wire(is_big_endian),
            r matches Err(e) ==> e == EncodeError::FieldTooLong,
    {
        encode_status_response(self.request_id, self.subcommand, &self.status, is_big_endian)
    }

    /// Decodes the body of the response to a put.
    pub fn from_bytes(bytes: &[u8], is_big_endian: bool) -> (r: Result<
        ChannelPutResponse,
        DecodeError,
    >)
        ensures
            decoded(r, parse_status_response(bytes@, is_big_endian)),
    {
        match decode_status_response(bytes, is_big_endian) {
            Ok((request_id, subcommand, status)) => Ok(
                ChannelPutResponse { request_id, subcommand, status },
            ),
            Err(e) => Err(e),
        }
    }
}

/// What the response to an initialisation says.
pub struct InitResponseModel {
    pub request_id: u32,
    pub subcommand: u8,
    pub status: StatusModel,
    pub pv_structure_if: Option<Seq<char>>,
}

impl InitResponseModel {
    /// The texts of the status and the type fit behind their lengths.
    pub open spec fn encodable(self) -> bool {
        self.status.encodable() && (self.pv_structure_if matches Some(t) ==> short_text(t))
    }

    /// The body: the request number, the subcommand, the status, and the
    /// type behind the byte that says whether there is one.
    pub open spec fn wire(self, big: bool) -> Seq<u8> {
        u32_bytes(self.request_id, big) + seq![self.subcommand] + self.status.wire()
            + match self.pv_structure_if {
            Some(t) => seq![1u8] + string_bytes(t),
            None => seq![0u8],
        }
    }
}

/// What the body of the response to an initialisation says.
pub open spec fn parse_init_response(s: Seq<u8>, big: bool) -> Result<
    InitResponseModel,
    DecodeError,
> {
    match take_u32(s, big) {
        Err(e) => Err(e),
        Ok((request_id, s1)) => match take_u8(s1) {
            Err(e) => Err(e),
            Ok((subcommand, s2)) => match take_status(s2) {
                Err(e) => Err(e),
                Ok((status, s3)) => match exact(take_call_tree(s3)) {
                    Err(e) => Err(e),
                    Ok(pv_structure_if) => Ok(
                        InitResponseModel { request_id, subcommand, status, pv_structure_if },
                    ),
                },
            },
        },
    }
}

/// Decoding the body of the response to an initialisation gives the
/// response back.
pub proof fn lemma_init_response_roundtrip(m: InitResponseModel, big: bool)
    requires
        m.encodable(),
    ensures
        parse_init_response(m.wire(big), big) == Ok::<InitResponseModel, DecodeError>(m),
{
    let a = u32_bytes(m.request_id, big);
    let b = seq![m.subcommand];
    let c = m.status.wire();
    let d = match m.pv_structure_if {
        Some(t) => seq![1u8] + string_bytes(t),
        None => seq![0u8],
    };
    lemma_concat_assoc(a + b, c, d);
    lemma_concat_assoc(a, b, c + d);
    lemma_take_u32(m.request_id, big, b + (c + d));
    lemma_take_u8(m.subcommand, c + d);
    lemma_take_status(m.status, d);
    match m.pv_structure_if {
        Some(t) => {
            lemma_take_u8(1u8, string_bytes(t));
            lemma_take_string(t, Seq::<u8>::empty());
            assert(string_bytes(t) + Seq::<u8>::empty() =~= string_bytes(t));
        },
        None => {
            lemma_take_u8(0u8, Seq::<u8>::empty());
            assert(seq![0u8] + Seq::<u8>::empty() =~= seq![0u8]);
        },
    }
}

fn encode_init_response(
    request_id: u32,
    subcommand: u8,
    status: &ResponseCompletionStatus,
    pv_structure_if: &Option<String>,
    big: bool,
) -> (r: Result<Vec<u8>, EncodeError>)
    ensures
        r is Ok <==> status@.encodable() && (pv_structure_if matches Some(t) ==> short_text(t@)),
        r matches Ok(v) ==> v@ == u32_bytes(request_id, big) + seq![subcommand] + status@.wire()
            + match pv_structure_if {
            Some(t) => seq![1u8] + string_bytes(t@),
            None => seq![0u8],
        },
        r matches Err(e) ==> e == EncodeError::FieldTooLong,
{
    if !status.is_encodable() {
        return Err(EncodeError::FieldTooLong);
    }
    match pv_structure_if {
        Some(t) => {
            if !is_short_text(t.as_str()) {
                return Err(EncodeError::FieldTooLong);
            }
        },
        None => {},
    }
    let mut out: Vec<u8> = Vec::new();
    put_u32(&mut out, request_id, big);
    put_u8(&mut out, subcommand);
    status.put(&mut out);
    let ghost head = out@;
    match pv_structure_if {
        Some(t) => {
            put_u8(&mut out, 1);
            put_string(&mut out, t.as_str());
            proof {
                lemma_concat_assoc(head, seq![1u8], string_bytes(t@));
            }
        },
        None => {
            put_u8(&mut out, 0);
        },
    }
    assert(head =~= u32_bytes(request_id, big) + seq![subcommand] + status@.wire());
    Ok(out)
}

fn decode_init_response(bytes: &[u8], big: bool) -> (r: Result<
    (u32, u8, ResponseCompletionStatus, Option<String>),
    DecodeError,
>)
    ensures
        match r {
            Ok(v) => parse_init_response(bytes@, big) == Ok::<InitResponseModel, DecodeError>(
                InitResponseModel {
                    request_id: v.0,
                    subcommand: v.1,
                    status: v.2@,
                    pv_structure_if: match v.3 {
                        Some(t) => Some(t@),
                        None => None,
                    },
                },
            ),
            Err(e) => parse_init_response(bytes@, big) == Err::<InitResponseModel, DecodeError>(e),
        },
{
    proof {
        lemma_skip_zero(bytes@);
    }
    let (request_id, p1) = match read_u32(bytes, 0, big) {
        Ok(x) => x,
        Err(e) => return Err(e),
    };
    let (subcommand, p2) = match read_u8(bytes, p1) {
        Ok(x) => x,
        Err(e) => return Err(e),
    };
    let (status, p3) = match ResponseCompletionStatus::read(bytes, p2) {
        Ok(x) => x,
        Err(e) => return Err(e),
    };
    let (flag, p4) = match read_u8(bytes, p3) {
        Ok(x) => x,
        Err(e) => return Err(e),
    };
    let (pv_structure_if, p5) = if flag == 0 {
        (None, p4)
    } else if flag == 1 {
        match read_string(bytes, p4) {
            Ok((t, p)) => (Some(t), p),
            Err(e) => return Err(e),
        }
    } else {
        return Err(DecodeError::InvalidKind);
    };
    match finish(bytes, p5) {
        Ok(()) => Ok((request_id, subcommand, status, pv_structure_if)),
        Err(e) => Err(e),
    }
}

/// The response to the initialisation of a put.
#[derive(Debug, Clone, PartialEq, Eq)]
pub struct ChannelPutResponseInit {
    /// The number of the request.
    pub request_id: u32,
    /// The subcommand of the request that is answered.
    pub subcommand: u8,
    /// Whether the initialisation went well.
    pub status: ResponseCompletionStatus,
    /// The type of the structure that the channel holds, where the
    /// initialisation went well.
    pub pv_structure_if: Option<String>,
}

impl View for ChannelPutResponseInit {
    type V = InitResponseModel;

    open spec fn view(&self) -> InitResponseModel {
        InitResponseModel {
            request_id: self.request_id,
            subcommand: self.subcommand,
            status: self.status@,
            pv_structure_if: match self.pv_structure_if {
                Some(t) => Some(t@),
                None => None,
            },
        }
    }
}

impl ChannelPutResponseInit {
    /// Encodes the body, or reports `FieldTooLong` where a text is too long.
    pub fn to_bytes(&self, is_big_endian: bool) -> (r: Result<Vec<u8>, EncodeError>)
        ensures
            r is Ok <==> self@.encodable(),
            r matches Ok(v) ==> v@ == self@.wire(is_big_endian),
            r matches Err(e) ==> e == EncodeError::FieldTooLong,
    {
        encode_init_response(
            self.request_id,
            self.subcommand,
            &self.status,
            &self.pv_structure_if,
            is_big_endian,
        )
    }

    /// Decodes the body of the response to the initialisation of a put.
    pub fn from_bytes(bytes: &[u8], is_big_endian: bool) -> (r: Result<
        ChannelPutResponseInit,
        DecodeError,
    >)
        ensures
            decoded(r, parse_init_response(bytes@, is_big_endian)),
    {
        match decode_init_response(bytes, is_big_endian) {
            Ok(v) => Ok(
                ChannelPutResponseInit {
                    request_id: v.0,
                    subcommand: v.1,
                    status: v.2,
                    pv_structure_if: v.3,
                },
            ),
            Err(e) => Err(e),
        }
    }
}

/// The response to the initialisation of a monitor.
#[derive(Debug, Clone, PartialEq, Eq)]
pub struct ChannelMonitorResponseInit {
    /// The number of the request.
    pub request_id: u32,
    /// The subcommand of the request that is answered.
    pub subcommand: u8,
    /// Whether the initialisation went well.
    pub status: ResponseCompletionStatus,
    /// The type of the structure that the channel holds, where the
    /// initialisation went well.
    pub pv_structure_if: Option<String>,
}

impl View for ChannelMonitorResponseInit {
    type V = InitResponseModel;

    open spec fn view(&self) -> InitResponseModel {
        InitResponseModel {
            request_id: self.request_id,
            subcommand: self.subcommand,
            status: self.status@,
            pv_structure_if: match self.pv_structure_if {
                Some(t) => Some(t@),
                None => None,
            },
        }
    }
}

impl ChannelMonitorResponseInit {
    /// Encodes the body, or reports `FieldTooLong` where a text is too long.
    pub fn to_bytes(&self, is_big_endian: bool) -> (r: Result<Vec<u8>, EncodeError>)
        ensures
            r is Ok <==> self@.encodable(),
            r matches Ok(v) ==> v@ == self@.wire(is_big_endian),
            r matches Err(e) ==> e == EncodeError::FieldTooLong,
    {
        encode_init_response(
            self.request_id,
            self.subcommand,
            &self.status,
            &self.pv_structure_if,
            is_big_endian,
        )
    }

    /// Decodes the body of the response to the initialisation of a monitor.
    pub fn from_bytes(bytes: &[u8], is_big_endian: bool) -> (r: Result<
        ChannelMonitorResponseInit,
        DecodeError,
    >)
        ensures
            decoded(r, parse_init_response(bytes@, is_big_endian)),
    {
        match decode_init_response(bytes, is_big_endian) {
            Ok(v) => Ok(
                ChannelMonitorResponseInit {
                    request_id: v.0,
                    subcommand: v.1,
                    status: v.2,
                    pv_structure_if: v.3,
                },
            ),
            Err(e) => Err(e),
        }
    }
}

/// The response to the initialisation of a get. The type of the structure
/// is always there; it is empty where the initialisation failed.
#[derive(Debug, Clone, PartialEq, Eq)]
pub struct ChannelGetResponseInit {
    /// The number of the request.
    pub request_id: u32,
    /// The subcommand of the request that is answered.
    pub subcommand: u8,
    /// Whether the initialisation went well.
    pub status: ResponseCompletionStatus,
    /// The type of the structure that the channel holds.
    pub pv_structure_if: String,
}

impl View for ChannelGetResponseInit {
    type V = InitResponseModel;

    open spec fn view(&self) -> InitResponseModel {
        InitResponseModel {
            request_id: self.request_id,
            subcommand: self.subcommand,
            status: self.status@,
            pv_structure_if: Some(self.pv_structure_if@),
        }
    }
}

impl ChannelGetResponseInit {
    /// Encodes the body, or reports `FieldTooLong` where a text is too long.
    pub fn to_bytes(&self, is_big_endian: bool) -> (r: Result<Vec<u8>, EncodeError>)
        ensures
            r is Ok <==> self@.encodable(),
            r matches Ok(v) ==> v@ == self@.wire(is_big_endian),
            r matches Err(e) ==> e == EncodeError::FieldTooLong,
    {
        let text = Some(self.pv_structure_if.clone());
        encode_init_response(self.request_id, self.subcommand, &self.status, &text, is_big_endian)
    }

    /// Decodes the body of the response to the initialisation of a get. A
    /// body without the type of the structure is rejected as `InvalidKind`.
    pub fn from_bytes(bytes: &[u8], is_big_endian: bool) -> (r: Result<
        ChannelGetResponseInit,
        DecodeError,
    >)
        ensures
            match r {
                Ok(m) => parse_init_response(bytes@, is_big_endian) == Ok::<
                    InitResponseModel,
                    DecodeError,
                >(m@),
                Err(e) => match parse_init_response(bytes@, is_big_endian) {
                    Ok(m) => m.pv_structure_if is None && e == DecodeError::InvalidKind,
                    Err(e2) => e == e2,
                },
            },
    {
        match decode_init_response(bytes, is_big_endian) {
            Ok(v) => match v.3 {
                Some(pv_structure_if) => Ok(
                    ChannelGetResponseInit {
                        request_id: v.0,
                        subcommand: v.1,
                        status: v.2,
                        pv_structure_if,
                    },
                ),
                None => Err(DecodeError::InvalidKind),
            },
            Err(e) => Err(e),
        }
    }
}

impl ToBytes for ChannelGetRequestInit {
    open spec fn encodable(&self) -> bool {
        self@.encodable()
    }

    open spec fn wire(&self, big: bool) -> Seq<u8> {
        self@.wire(big)
    }

    fn to_bytes(&self, is_big_endian: bool) -> (r: Result<Vec<u8>, EncodeError>) {
        ChannelGetRequestInit::to_bytes(self, is_big_endian)
    }
}

impl ToBytes for ChannelPutRequestInit {
    open spec fn encodable(&self) -> bool {
        self@.encodable()
    }

    open spec fn wire(&self, big: bool) -> Seq<u8> {
        self@.wire(big)
    }

    fn to_bytes(&self, is_big_endian: bool) -> (r: Result<Vec<u8>, EncodeError>) {
        ChannelPutRequestInit::to_bytes(self, is_big_endian)
    }
}

impl ToBytes for ChannelMonitorRequestInit {
    open spec fn encodable(&self) -> bool {
        self@.init.encodable()
    }

    open spec fn wire(&self, big: bool) -> Seq<u8> {
        self@.wire(big)
    }

    fn to_bytes(&self, is_big_endian: bool) -> (r: Result<Vec<u8>, EncodeError>) {
        ChannelMonitorRequestInit::to_bytes(self, is_big_endian)
    }
}

impl ToBytes for ChannelPutResponse {
    open spec fn encodable(&self) -> bool {
        self@.status.encodable()
    }

    open spec fn wire(&self, big: bool) -> Seq<u8> {
        self@.wire(big)
    }

    fn to_bytes(&self, is_big_endian: bool) -> (r: Result<Vec<u8>, EncodeError>) {
        ChannelPutResponse::to_bytes(self, is_big_endian)
    }
}

impl ToBytes for ChannelPutResponseInit {
    open spec fn encodable(&self) -> bool {
        self@.encodable()
    }

    open spec fn wire(&self, big: bool) -> Seq<u8> {
        self@.wire(big)
    }

    fn to_bytes(&self, is_big_endian: bool) -> (r: Result<Vec<u8>, EncodeError>) {
        ChannelPutResponseInit::to_bytes(self, is_big_endian)
    }
}

impl ToBytes for ChannelMonitorResponseInit {
    open spec fn encodable(&self) -> bool {
        self@.encodable()
    }

    open spec fn wire(&self, big: bool) -> Seq<u8> {
        self@.wire(big)
    }

    fn to_bytes(&self, is_big_endian: bool) -> (r: Result<Vec<u8>, EncodeError>) {
        ChannelMonitorResponseInit::to_bytes(self, is_big_endian)
    }
}

impl ToBytes for ChannelGetResponseInit {
    open spec fn encodable(&self) -> bool {
        self@.encodable()
    }

    open spec fn wire(&self, big: bool) -> Seq<u8> {
        self@.wire(big)
    }

    fn to_bytes(&self, is_big_endian: bool) -> (r: Result<Vec<u8>, EncodeError>) {
        ChannelGetResponseInit::to_bytes(self, is_big_endian)
    }
}

} // verus!
