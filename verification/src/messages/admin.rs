//! The bodies of the administrative commands: destroying a request,
//! processing a channel, asking for the type of a field, and the message by
//! which a server tells a client something.

use crate::error::{DecodeError, EncodeError};
use crate::messages::channel::SUBCOMMAND_INIT;
use crate::messages::status::{
    lemma_take_status, take_status, ResponseCompletionStatus, ResponseCompletionStatusEnum,
    StatusModel,
};
use crate::wire::{
    decoded, exact, finish, is_short_text, lemma_concat_assoc, lemma_skip_zero, lemma_take_string,
    lemma_take_u32, lemma_take_u8, lemma_u32_pair, parse_u32_pair, put_string, put_u32, put_u8,
    read_string, read_u32, read_u32_pair, read_u8, short_text, string_bytes, take_string,
    take_u32, take_u8, u32_bytes, write_u32_pair,
};
use crate::messages::into::ToBytes;
use vstd::prelude::*;

verus! {

/// The request to destroy a request that is under way.
#[derive(Debug, Clone, Copy, PartialEq, Eq, Structural)]
pub struct DestroyRequest {
    /// The number that the server gave the channel.
    pub server_channel_id: u32,
    /// The number of the request that is to be destroyed.
    pub request_id: u32,
}

impl DestroyRequest {
    /// A request to destroy the request `request_id` on the channel
    /// `server_channel_id`.
    pub fn new(server_channel_id: u32, request_id: u32) -> (m: DestroyRequest)
        ensures
            m.server_channel_id == server_channel_id,
            m.request_id == request_id,
    {
        DestroyRequest { server_channel_id, request_id }
    }

    /// The eight bytes of the request: the number of the channel, then the
    /// number of the request.
    pub fn to_bytes(&self, is_big_endian: bool) -> (out: Vec<u8>)
        ensures
            out@ == u32_bytes(self.server_channel_id, is_big_endian) + u32_bytes(
                self.request_id,
                is_big_endian,
            ),
            parse_u32_pair(out@, is_big_endian) == Ok::<(u32, u32), DecodeError>(
                (self.server_channel_id, self.request_id),
            ),
    {
        proof {
            lemma_u32_pair(self.server_channel_id, self.request_id, is_big_endian);
        }
        write_u32_pair(self.server_channel_id, self.request_id, is_big_endian)
    }

    /// Decodes the eight bytes of the request.
    pub fn from_bytes(bytes: &[u8], is_big_endian: bool) -> (r: Result<DestroyRequest, DecodeError>)
        ensures
            match r {
                Ok(m) => parse_u32_pair(bytes@, is_big_endian) == Ok::<(u32, u32), DecodeError>(
                    (m.server_channel_id, m.request_id),
                ),
                Err(e) => parse_u32_pair(bytes@, is_big_endian) == Err::<(u32, u32), DecodeError>(
                    e,
                ),
            },
    {
        match read_u32_pair(bytes, is_big_endian) {
            Ok((server_channel_id, request_id)) => Ok(
                DestroyRequest { server_channel_id, request_id },
            ),
            Err(e) => Err(e),
        }
    }
}

/// The request that initialises the processing of a channel.
#[derive(Debug, Clone, PartialEq, Eq)]
pub struct ChannelProcessRequestInit {
    /// The number that the server gave the channel.
    pub server_channel_id: u32,
    /// The number of the request.
    pub request_id: u32,
    /// Always `SUBCOMMAND_INIT`.
    pub subcommand: u8,
    /// The type of the request structure, if one is sent.
    pub pv_request_if: Option<String>,
    /// The request structure, if one is sent.
    pub pv_request: Option<String>,
}

impl ChannelProcessRequestInit {
    /// An initialisation without a request structure.
    pub fn new(server_channel_id: u32, request_id: u32) -> (m: ChannelProcessRequestInit)
        ensures
            m.server_channel_id == server_channel_id,
            m.request_id == request_id,
            m.subcommand == SUBCOMMAND_INIT,
            m.pv_request_if is None,
            m.pv_request is None,
    {
        ChannelProcessRequestInit {
            server_channel_id,
            request_id,
            subcommand: SUBCOMMAND_INIT,
            pv_request_if: None,
            pv_request: None,
        }
    }
}

/// What a response with a request number, a subcommand and a status says.
pub struct StatusResponseModel {
    pub request_id: u32,
    pub subcommand: u8,
    pub status: StatusModel,
}

impl StatusResponseModel {
    /// The body: the request number, the subcommand and the status.
    pub open spec fn wire(self, big: bool) -> Seq<u8> {
        u32_bytes(self.request_id, big) + seq![self.subcommand] + self.status.wire()
    }
}

/// What the body of a response with a request number, a subcommand and a
/// status says.
pub open spec fn parse_status_response(s: Seq<u8>, big: bool) -> Result<
    StatusResponseModel,
    DecodeError,
> {
    match take_u32(s, big) {
        Err(e) => Err(e),
        Ok((request_id, s1)) => match take_u8(s1) {
            Err(e) => Err(e),
            Ok((subcommand, s2)) => match exact(take_status(s2)) {
                Err(e) => Err(e),
                Ok(status) => Ok(StatusResponseModel { request_id, subcommand, status }),
            },
        },
    }
}

/// Decoding the body of such a response gives the response back.
pub proof fn lemma_status_response_roundtrip(m: StatusResponseModel, big: bool)
    requires
        m.status.encodable(),
    ensures
        parse_status_response(m.wire(big), big) == Ok::<StatusResponseModel, DecodeError>(m),
{
    let a = u32_bytes(m.request_id, big);
    let b = seq![m.subcommand];
    let c = m.status.wire();
    lemma_concat_assoc(a, b, c);
    lemma_take_u32(m.request_id, big, b + c);
    lemma_take_u8(m.subcommand, c);
    lemma_take_status(m.status, Seq::<u8>::empty());
    assert(c + Seq::<u8>::empty() =~= c);
}

pub(crate) fn encode_status_response(
    request_id: u32,
    subcommand: u8,
    status: &ResponseCompletionStatus,
    big: bool,
) -> (r: Result<Vec<u8>, EncodeError>)
    ensures
        r is Ok <==> status@.encodable(),
        r matches Ok(v) ==> v@ == (StatusResponseModel {
            request_id,
            subcommand,
            status: status@,
        }).wire(big),
        r matches Err(e) ==> e == EncodeError::FieldTooLong,
{
    if !status.is_encodable() {
        return Err(EncodeError::FieldTooLong);
    }
    let mut out: Vec<u8> = Vec::new();
    put_u32(&mut out, request_id, big);
    put_u8(&mut out, subcommand);
    status.put(&mut out);
    assert(out@ =~= (StatusResponseModel { request_id, subcommand, status: status@ }).wire(big));
    Ok(out)
}

pub(crate) fn decode_status_response(bytes: &[u8], big: bool) -> (r: Result<
    (u32, u8, ResponseCompletionStatus),
    DecodeError,
>)
    ensures
        match r {
            Ok((request_id, subcommand, status)) => parse_status_response(bytes@, big) == Ok::<
                StatusResponseModel,
                DecodeError,
            >(StatusResponseModel { request_id, subcommand, status: status@ }),
            Err(e) => parse_status_response(bytes@, big) == Err::<
                StatusResponseModel,
                DecodeError,
            >(e),
        },
{
    proof {
        lemma_skip_zero(bytes@);
    }
    let (request_id, p1) = match read_u32(bytes, 0, big) {
        Ok(x) => x,
        Err(e) => return Err(e),
    };
    let (subcommand, p2) = match read_u8(bytes, p1) {
        Ok(x) => x,
        Err(e) => return Err(e),
    };
    let (status, p3) = match ResponseCompletionStatus::read(bytes, p2) {
        Ok(x) => x,
        Err(e) => return Err(e),
    };
    match finish(bytes, p3) {
        Ok(()) => Ok((request_id, subcommand, status)),
        Err(e) => Err(e),
    }
}

/// The response to the initialisation of the processing of a channel.
#[derive(Debug, Clone, PartialEq, Eq)]
pub struct ChannelProceesResponseInit {
    /// The number of the request.
    pub request_id: u32,
    /// Whether the initialisation went well.
    pub status: ResponseCompletionStatus,
    /// Always `SUBCOMMAND_INIT`.
    pub subcommand: u8,
}

impl View for ChannelProceesResponseInit {
    type V = StatusResponseModel;

    open spec fn view(&self) -> StatusResponseModel {
        StatusResponseModel {
            request_id: self.request_id,
            subcommand: self.subcommand,
            status: self.status@,
        }
    }
}

impl ChannelProceesResponseInit {
    /// The response to an initialisation that went well.
    pub fn new(request_id: u32) -> (m: ChannelProceesResponseInit)
        ensures
            m.request_id == request_id,
            m.subcommand == SUBCOMMAND_INIT,
            m.status.response_type == ResponseCompletionStatusEnum::Success,
            m.status.message@ == "ok"@,
            m.status.call_tree is None,
    {
        ChannelProceesResponseInit {
            request_id,
            status: ResponseCompletionStatus::ok(),
            subcommand: SUBCOMMAND_INIT,
        }
    }

    /// Encodes the body, or reports `FieldTooLong` where a text of the status
    /// is too long.
    pub fn to_bytes(&self, is_big_endian: bool) -> (r: Result<Vec<u8>, EncodeError>)
        ensures
            r is Ok <==> self@.status.encodable(),
            r matches Ok(v) ==> v@ == self@.wire(is_big_endian),
            r matches Err(e) ==> e == EncodeError::FieldTooLong,
    {
        encode_status_response(self.request_id, self.subcommand, &self.status, is_big_endian)
    }

    /// Decodes the body of the response.
    pub fn from_bytes(bytes: &[u8], is_big_endian: bool) -> (r: Result<
        ChannelProceesResponseInit,
        DecodeError,
    >)
        ensures
            decoded(r, parse_status_response(bytes@, is_big_endian)),
    {
        match decode_status_response(bytes, is_big_endian) {
            Ok((request_id, subcommand, status)) => Ok(
                ChannelProceesResponseInit { request_id, status, subcommand },
            ),
            Err(e) => Err(e),
        }
    }
}

/// What a request for the type of a field says.
pub struct GetFieldModel {
    pub server_channel_id: u32,
    pub request_id: u32,
    pub subfield_name: Seq<char>,
}

impl GetFieldModel {
    /// The body: the two numbers and the name of the field.
    pub open spec fn wire(self, big: bool) -> Seq<u8> {
        u32_bytes(self.server_channel_id, big) + u32_bytes(self.request_id, big) + string_bytes(
            self.subfield_name,
        )
    }
}

/// What the body of a request for the type of a field says.
pub open spec fn parse_get_field(s: Seq<u8>, big: bool) -> Result<GetFieldModel, DecodeError> {
    match take_u32(s, big) {
        Err(e) => Err(e),
        Ok((server_channel_id, s1)) => match take_u32(s1, big) {
            Err(e) => Err(e),
            Ok((request_id, s2)) => match exact(take_string(s2)) {
                Err(e) => Err(e),
                Ok(subfield_name) => Ok(
                    GetFieldModel { server_channel_id, request_id, subfield_name },
                ),
            },
        },
    }
}

/// Decoding the body of a request for the type of a field gives the request
/// back.
pub proof fn lemma_get_field_roundtrip(m: GetFieldModel, big: bool)
    requires
        short_text(m.subfield_name),
    ensures
        parse_get_field(m.wire(big), big) == Ok::<GetFieldModel, DecodeError>(m),
{
    let a = u32_bytes(m.server_channel_id, big);
    let b = u32_bytes(m.request_id, big);
    let c = string_bytes(m.subfield_name);
    lemma_concat_assoc(a, b, c);
    lemma_take_u32(m.server_channel_id, big, b + c);
    lemma_take_u32(m.request_id, big, c);
    lemma_take_string(m.subfield_name, Seq::<u8>::empty());
    assert(c + Seq::<u8>::empty() =~= c);
}

/// The request for the type of a field of a channel.
#[derive(Debug, Clone, PartialEq, Eq)]
pub struct ChannelGetFieldRequest {
    /// The number that the server gave the channel.
    pub server_channel_id: u32,
    /// The number of the request.
    pub request_id: u32,
    /// The name of the field; empty for the whole structure.
    pub subfield_name: String,
}

impl View for ChannelGetFieldRequest {
    type V = GetFieldModel;

    open spec fn view(&self) -> GetFieldModel {
        GetFieldModel {
            server_channel_id: self.server_channel_id,
            request_id: self.request_id,
            subfield_name: self.subfield_name@,
        }
    }
}

impl ChannelGetFieldRequest {
    /// A request for the type of the whole structure.
    pub fn new(server_channel_id: u32, request_id: u32) -> (m: ChannelGetFieldRequest)
        ensures
            m.server_channel_id == server_channel_id,
            m.request_id == request_id,
            m.subfield_name@ == Seq::<char>::empty(),
    {
        ChannelGetFieldRequest { server_channel_id, request_id, subfield_name: String::new() }
    }

    /// Encodes the body, or reports `FieldTooLong` where the name is too
    /// long.
    pub fn to_bytes(&self, is_big_endian: bool) -> (r: Result<Vec<u8>, EncodeError>)
        ensures
            r is Ok <==> short_text(self@.subfield_name),
            r matches Ok(v) ==> v@ == self@.wire(is_big_endian),
            r matches Err(e) ==> e == EncodeError::FieldTooLong,
    {
        if !is_short_text(self.subfield_name.as_str()) {
            return Err(EncodeError::FieldTooLong);
        }
        let mut out: Vec<u8> = write_u32_pair(
            self.server_channel_id,
            self.request_id,
            is_big_endian,
        );
        put_string(&mut out, self.subfield_name.as_str());
        Ok(out)
    }

    /// Decodes the body of the request.
    pub fn from_bytes(bytes: &[u8], is_big_endian: bool) -> (r: Result<
        ChannelGetFieldRequest,
        DecodeError,
    >)
        ensures
            decoded(r, parse_get_field(bytes@, is_big_endian)),
    {
        proof {
            lemma_skip_zero(bytes@);
        }
        let (server_channel_id, p1) = match read_u32(bytes, 0, is_big_endian) {
            Ok(x) => x,
            Err(e) => return Err(e),
        };
        let (request_id, p2) = match read_u32(bytes, p1, is_big_endian) {
            Ok(x) => x,
            Err(e) => return Err(e),
        };
        let (subfield_name, p3) = match read_string(bytes, p2) {
            Ok(x) => x,
            Err(e) => return Err(e),
        };
        match finish(bytes, p3) {
            Ok(()) => Ok(ChannelGetFieldRequest { server_channel_id, request_id, subfield_name }),
            Err(e) => Err(e),
        }
    }
}

/// How grave a message is.
#[derive(Debug, Clone, Copy, PartialEq, Eq, Structural)]
pub enum PvMessageType {
    Info,
    Warning,
    Error,
    FatalError,
}

/// The gravity that a byte names, if it names one.
pub open spec fn gravity_of(byte: u8) -> Option<PvMessageType> {
    if byte == 0 {
        Some(PvMessageType::Info)
    } else if byte == 1 {
        Some(PvMessageType::Warning)
    } else if byte == 2 {
        Some(PvMessageType::Error)
    } else if byte == 3 {
        Some(PvMessageType::FatalError)
    } else {
        None
    }
}

/// The byte that names a gravity.
pub open spec fn gravity_code(kind: PvMessageType) -> u8 {
    match kind {
        PvMessageType::Info => 0,
        PvMessageType::Warning => 1,
        PvMessageType::Error => 2,
        PvMessageType::FatalError => 3,
    }
}

/// What a message says.
pub struct MessageModel {
    pub request_id: u32,
    pub message_type: PvMessageType,
    pub message: Seq<char>,
}

impl MessageModel {
    /// The body: the request number, the gravity and the text.
    pub open spec fn wire(self, big: bool) -> Seq<u8> {
        u32_bytes(self.request_id, big) + seq![gravity_code(self.message_type)] + string_bytes(
            self.message,
        )
    }
}

/// What the body of a message says.
pub open spec fn parse_message(s: Seq<u8>, big: bool) -> Result<MessageModel, DecodeError> {
    match take_u32(s, big) {
        Err(e) => Err(e),
        Ok((request_id, s1)) => match take_u8(s1) {
            Err(e) => Err(e),
            Ok((code, s2)) => match gravity_of(code) {
                None => Err(DecodeError::InvalidKind),
                Some(message_type) => match exact(take_string(s2)) {
                    Err(e) => Err(e),
                    Ok(message) => Ok(MessageModel { request_id, message_type, message }),
                },
            },
        },
    }
}

/// Decoding the body of a message gives the message back.
pub proof fn lemma_message_roundtrip(m: MessageModel, big: bool)
    requires
        short_text(m.message),
    ensures
        parse_message(m.wire(big), big) == Ok::<MessageModel, DecodeError>(m),
{
    let a = u32_bytes(m.request_id, big);
    let b = seq![gravity_code(m.message_type)];
    let c = string_bytes(m.message);
    lemma_concat_assoc(a, b, c);
    lemma_take_u32(m.request_id, big, b + c);
    lemma_take_u8(gravity_code(m.message_type), c);
    lemma_take_string(m.message, Seq::<u8>::empty());
    assert(c + Seq::<u8>::empty() =~= c);
}

/// A message of the server about a request.
#[derive(Debug, Clone, PartialEq, Eq)]
pub struct PvMessage {
    /// The number of the request that the message is about.
    pub request_id: u32,
    /// How grave the message is.
    pub message_type: PvMessageType,
    /// The text.
    pub message: String,
}

impl View for PvMessage {
    type V = MessageModel;

    open spec fn view(&self) -> MessageModel {
        MessageModel {
            request_id: self.request_id,
            message_type: self.message_type,
            message: self.message@,
        }
    }
}

impl PvMessage {
    /// A message with the given gravity and text.
    pub fn new(request_id: u32, message_type: PvMessageType, message: String) -> (m: PvMessage)
        ensures
            m.request_id == request_id,
            m.message_type == message_type,
            m.message == message,
    {
        PvMessage { request_id, message_type, message }
    }

    /// Encodes the body, or reports `FieldTooLong` where the text is too
    /// long.
    pub fn to_bytes(&self, is_big_endian: bool) -> (r: Result<Vec<u8>, EncodeError>)
        ensures
            r is Ok <==> short_text(self@.message),
            r matches Ok(v) ==> v@ == self@.wire(is_big_endian),
            r matches Err(e) ==> e == EncodeError::FieldTooLong,
    {
        if !is_short_text(self.message.as_str()) {
            return Err(EncodeError::FieldTooLong);
        }
        let mut out: Vec<u8> = Vec::new();
        put_u32(&mut out, self.request_id, is_big_endian);
        let code: u8 = match self.message_type {
            PvMessageType::Info => 0,
            PvMessageType::Warning => 1,
            PvMessageType::Error => 2,
            PvMessageType::FatalError => 3,
        };
        put_u8(&mut out, code);
        put_string(&mut out, self.message.as_str());
        assert(out@ =~= self@.wire(is_big_endian));
        Ok(out)
    }

    /// Decodes the body of a message.
    pub fn from_bytes(bytes: &[u8], is_big_endian: bool) -> (r: Result<PvMessage, DecodeError>)
        ensures
            decoded(r, parse_message(bytes@, is_big_endian)),
    {
        proof {
            lemma_skip_zero(bytes@);
        }
        let (request_id, p1) = match read_u32(bytes, 0, is_big_endian) {
            Ok(x) => x,
            Err(e) => return Err(e),
        };
        let (code, p2) = match read_u8(bytes, p1) {
            Ok(x) => x,
            Err(e) => return Err(e),
        };
        let message_type = match code {
            0 => PvMessageType::Info,
            1 => PvMessageType::Warning,
            2 => PvMessageType::Error,
            3 => PvMessageType::FatalError,
            _ => return Err(DecodeError::InvalidKind),
        };
        let (message, p3) = match read_string(bytes, p2) {
            Ok(x) => x,
            Err(e) => return Err(e),
        };
        match finish(bytes, p3) {
            Ok(()) => Ok(PvMessage { request_id, message_type, message }),
            Err(e) => Err(e),
        }
    }
}

impl ToBytes for DestroyRequest {
    open spec fn encodable(&self) -> bool {
        true
    }

    open spec fn wire(&self, big: bool) -> Seq<u8> {
        u32_bytes(self.server_channel_id, big) + u32_bytes(self.request_id, big)
    }

    fn to_bytes(&self, is_big_endian: bool) -> (r: Result<Vec<u8>, EncodeError>) {
        Ok(DestroyRequest::to_bytes(self, is_big_endian))
    }
}

impl ToBytes for ChannelProceesResponseInit {
    open spec fn encodable(&self) -> bool {
        self@.status.encodable()
    }

    open spec fn wire(&self, big: bool) -> Seq<u8> {
        self@.wire(big)
    }

    fn to_bytes(&self, is_big_endian: bool) -> (r: Result<Vec<u8>, EncodeError>) {
        ChannelProceesResponseInit::to_bytes(self, is_big_endian)
    }
}

impl ToBytes for ChannelGetFieldRequest {
    open spec fn encodable(&self) -> bool {
        short_text(self@.subfield_name)
    }

    open spec fn wire(&self, big: bool) -> Seq<u8> {
        self@.wire(big)
    }

    fn to_bytes(&self, is_big_endian: bool) -> (r: Result<Vec<u8>, EncodeError>) {
        ChannelGetFieldRequest::to_bytes(self, is_big_endian)
    }
}

impl ToBytes for PvMessage {
    open spec fn encodable(&self) -> bool {
        short_text(self@.message)
    }

    open spec fn wire(&self, big: bool) -> Seq<u8> {
        self@.wire(big)
    }

    fn to_bytes(&self, is_big_endian: bool) -> (r: Result<Vec<u8>, EncodeError>) {
        PvMessage::to_bytes(self, is_big_endian)
    }
}

} // verus!
