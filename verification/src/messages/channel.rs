//! The bodies of the channel commands.
//!
//! A request on a channel starts with the number that the server gave the
//! channel, the number of the request and a subcommand byte. Creating and
//! destroying a channel go by the numbers that the client and the server
//! gave it.

use crate::error::{DecodeError, EncodeError};
use crate::messages::into::ToBytes;
use crate::messages::search::{
    are_short_names, channel_enc, channel_item, lemma_take_channels, put_channels, read_channels,
    short_names, MAX_LIST_U16,
};
use crate::messages::status::{lemma_take_status, take_status, ResponseCompletionStatus, StatusModel};
use crate::wire::{
    decoded, exact, finish, lemma_concat_assoc, lemma_skip_zero, lemma_take_u16, lemma_take_u32,
    lemma_u32_at, lemma_u32_pair, list_wire, parse_u32_pair, put_u16, put_u8, read_u16, read_u32,
    read_u32_pair, take_list, take_u16, take_u32, u16_bytes, u32_at, u32_bytes, write_u32_pair,
};
use vstd::prelude::*;

verus! {

/// The subcommand bit of an initialisation.
pub const SUBCOMMAND_INIT: u8 = 0x08;

/// The subcommand bit that destroys the request.
pub const SUBCOMMAND_DESTROY: u8 = 0x10;

/// The subcommand bit that asks for the value.
pub const SUBCOMMAND_GET: u8 = 0x40;

/// What a request on a channel starts with.
#[derive(Debug, Clone, Copy, PartialEq, Eq, Structural)]
pub struct ChannelGetRequest {
    /// The number that the server gave the channel.
    pub server_channel_id: u32,
    /// The number of the request.
    pub request_id: u32,
    /// What is asked for: `SUBCOMMAND_GET`, `SUBCOMMAND_DESTROY` or both.
    pub subcommand: u8,
}

/// The nine bytes of a request on a channel.
pub open spec fn request_wire(m: ChannelGetRequest, big: bool) -> Seq<u8> {
    u32_bytes(m.server_channel_id, big) + u32_bytes(m.request_id, big) + seq![m.subcommand]
}

/// What the nine bytes of a request on a channel say.
pub open spec fn parse_request(s: Seq<u8>, big: bool) -> Result<ChannelGetRequest, DecodeError> {
    if s.len() < 9 {
        Err(DecodeError::Truncated)
    } else if s.len() > 9 {
        Err(DecodeError::TrailingBytes)
    } else {
        Ok(
            ChannelGetRequest {
                server_channel_id: u32_at(s.skip(0), big),
                request_id: u32_at(s.skip(4), big),
                subcommand: s[8],
            },
        )
    }
}

/// Decoding the bytes of a request on a channel gives the request back.
pub proof fn lemma_request_roundtrip(m: ChannelGetRequest, big: bool)
    ensures
        parse_request(request_wire(m, big), big) == Ok::<ChannelGetRequest, DecodeError>(m),
{
    let s = request_wire(m, big);
    assert(s.subrange(0, 4) =~= u32_bytes(m.server_channel_id, big));
    assert(s.subrange(4, 8) =~= u32_bytes(m.request_id, big));
    lemma_u32_at(m.server_channel_id, big, s, 0);
    lemma_u32_at(m.request_id, big, s, 4);
}

impl ChannelGetRequest {
    /// Whether the request initialises.
    pub fn is_init(&self) -> (b: bool)
        ensures
            b == (self.subcommand & SUBCOMMAND_INIT != 0),
    {
        self.subcommand & SUBCOMMAND_INIT != 0
    }

    /// Whether the request is destroyed with this message.
    pub fn is_destroy(&self) -> (b: bool)
        ensures
            b == (self.subcommand & SUBCOMMAND_DESTROY != 0),
    {
        self.subcommand & SUBCOMMAND_DESTROY != 0
    }

    /// Whether the value is asked for.
    pub fn is_get(&self) -> (b: bool)
        ensures
            b == (self.subcommand & SUBCOMMAND_GET != 0),
    {
        self.subcommand & SUBCOMMAND_GET != 0
    }

    /// The nine bytes of the request.
    pub fn to_bytes(&self, is_big_endian: bool) -> (out: Vec<u8>)
        ensures
            out@ == request_wire(*self, is_big_endian),
            out@.len() == 9,
    {
        let mut out: Vec<u8> = write_u32_pair(
            self.server_channel_id,
            self.request_id,
            is_big_endian,
        );
        put_u8(&mut out, self.subcommand);
        out
    }

    /// Decodes the nine bytes of a request.
    pub fn from_bytes(bytes: &[u8], is_big_endian: bool) -> (r: Result<
        ChannelGetRequest,
        DecodeError,
    >)
        ensures
            r == parse_request(bytes@, is_big_endian),
    {
        if bytes.len() < 9 {
            return Err(DecodeError::Truncated);
        }
        if bytes.len() > 9 {
            return Err(DecodeError::TrailingBytes);
        }
        let server_channel_id: u32 = match read_u32(bytes, 0, is_big_endian) {
            Ok((n, _)) => n,
            Err(e) => return Err(e),
        };
        let request_id: u32 = match read_u32(bytes, 4, is_big_endian) {
            Ok((n, _)) => n,
            Err(e) => return Err(e),
        };
        Ok(ChannelGetRequest { server_channel_id, request_id, subcommand: bytes[8] })
    }
}

/// The request to destroy a channel.
#[derive(Debug, Clone, Copy, PartialEq, Eq, Structural)]
pub struct DestroyChannelRequest {
    /// The number that the client gave the channel.
    pub client_channel_id: u32,
    /// The number that the server gave the channel.
    pub server_channel_id: u32,
}

impl DestroyChannelRequest {
    /// The eight bytes of the request: the client's number, then the
    /// server's.
    pub fn to_bytes(&self, is_big_endian: bool) -> (out: Vec<u8>)
        ensures
            out@ == u32_bytes(self.client_channel_id, is_big_endian) + u32_bytes(
                self.server_channel_id,
                is_big_endian,
            ),
            parse_u32_pair(out@, is_big_endian) == Ok::<(u32, u32), DecodeError>(
                (self.client_channel_id, self.server_channel_id),
            ),
    {
        proof {
            lemma_u32_pair(self.client_channel_id, self.server_channel_id, is_big_endian);
        }
        write_u32_pair(self.client_channel_id, self.server_channel_id, is_big_endian)
    }

    /// Decodes the eight bytes of the request.
    pub fn from_bytes(bytes: &[u8], is_big_endian: bool) -> (r: Result<
        DestroyChannelRequest,
        DecodeError,
    >)
        ensures
            match r {
                Ok(m) => parse_u32_pair(bytes@, is_big_endian) == Ok::<(u32, u32), DecodeError>(
                    (m.client_channel_id, m.server_channel_id),
                ),
                Err(e) => parse_u32_pair(bytes@, is_big_endian) == Err::<(u32, u32), DecodeError>(
                    e,
                ),
            },
    {
        match read_u32_pair(bytes, is_big_endian) {
            Ok((client_channel_id, server_channel_id)) => Ok(
                DestroyChannelRequest { client_channel_id, server_channel_id },
            ),
            Err(e) => Err(e),
        }
    }
}

/// The response to the request to destroy a channel: the same two numbers.
#[derive(Debug, Clone, Copy, PartialEq, Eq, Structural)]
pub struct DestroyChannelResponse {
    /// The number that the client gave the channel.
    pub client_channel_id: u32,
    /// The number that the server gave the channel.
    pub server_channel_id: u32,
}

impl DestroyChannelResponse {
    /// The response to a request.
    pub fn answering(request: &DestroyChannelRequest) -> (m: DestroyChannelResponse)
        ensures
            m.client_channel_id == request.client_channel_id,
            m.server_channel_id == request.server_channel_id,
    {
        DestroyChannelResponse {
            client_channel_id: request.client_channel_id,
            server_channel_id: request.server_channel_id,
        }
    }

    /// The eight bytes of the response: the client's number, then the
    /// server's.
    pub fn to_bytes(&self, is_big_endian: bool) -> (out: Vec<u8>)
        ensures
            out@ == u32_bytes(self.client_channel_id, is_big_endian) + u32_bytes(
                self.server_channel_id,
                is_big_endian,
            ),
            parse_u32_pair(out@, is_big_endian) == Ok::<(u32, u32), DecodeError>(
                (self.client_channel_id, self.server_channel_id),
            ),
    {
        proof {
            lemma_u32_pair(self.client_channel_id, self.server_channel_id, is_big_endian);
        }
        write_u32_pair(self.client_channel_id, self.server_channel_id, is_big_endian)
    }

    /// Decodes the eight bytes of the response.
    pub fn from_bytes(bytes: &[u8], is_big_endian: bool) -> (r: Result<
        DestroyChannelResponse,
        DecodeError,
    >)
        ensures
            match r {
                Ok(m) => parse_u32_pair(bytes@, is_big_endian) == Ok::<(u32, u32), DecodeError>(
                    (m.client_channel_id, m.server_channel_id),
                ),
                Err(e) => parse_u32_pair(bytes@, is_big_endian) == Err::<(u32, u32), DecodeError>(
                    e,
                ),
            },
    {
        match read_u32_pair(bytes, is_big_endian) {
            Ok((client_channel_id, server_channel_id)) => Ok(
                DestroyChannelResponse { client_channel_id, server_channel_id },
            ),
            Err(e) => Err(e),
        }
    }
}

/// One channel that a client asks for: the number that the client gives it,
/// and its name.
#[derive(Debug, Clone, PartialEq, Eq)]
pub struct ChannelInit {
    pub client_channel_id: u32,
    pub channel_name: String,
}

/// The request to create channels.
#[derive(Debug, Clone, PartialEq, Eq)]
pub struct CreateChannelRequest {
    /// The channels that are asked for.
    pub channels: Vec<ChannelInit>,
}

/// What the channels of a request say: for each its number and its name.
pub open spec fn inits_of(channels: Seq<ChannelInit>) -> Seq<(u32, Seq<char>)> {
    Seq::new(channels.len(), |i: int| (channels[i].client_channel_id, channels[i].channel_name@))
}

impl View for CreateChannelRequest {
    type V = Seq<(u32, Seq<char>)>;

    open spec fn view(&self) -> Seq<(u32, Seq<char>)> {
        inits_of(self.channels@)
    }
}

/// Whether a list of channels has an encoding: there are at most 65535 of
/// them and every name fits behind its one-byte length.
pub open spec fn creatable(channels: Seq<(u32, Seq<char>)>) -> bool {
    channels.len() <= MAX_LIST_U16 && short_names(channels)
}

/// The body of the request to create channels: a 16-bit count and for each
/// channel its number and its name.
pub open spec fn create_wire(channels: Seq<(u32, Seq<char>)>, big: bool) -> Seq<u8> {
    u16_bytes(channels.len() as u16, big) + list_wire(channel_enc(big), channels)
}

/// What the body of a request to create channels says.
pub open spec fn parse_create(s: Seq<u8>, big: bool) -> Result<Seq<(u32, Seq<char>)>, DecodeError> {
    match take_u16(s, big) {
        Err(e) => Err(e),
        Ok((count, s1)) => exact(take_list(channel_item(big), s1, count as nat)),
    }
}

/// Decoding the body of a request to create channels gives the channels
/// back.
pub proof fn lemma_create_roundtrip(channels: Seq<(u32, Seq<char>)>, big: bool)
    requires
        creatable(channels),
    ensures
        parse_create(create_wire(channels, big), big) == Ok::<
            Seq<(u32, Seq<char>)>,
            DecodeError,
        >(channels),
{
    let list = list_wire(channel_enc(big), channels);
    lemma_take_u16(channels.len() as u16, big, list);
    lemma_take_channels(channels, big, Seq::<u8>::empty());
    assert(list + Seq::<u8>::empty() =~= list);
}

impl CreateChannelRequest {
    fn pairs(&self) -> (v: Vec<(u32, String)>)
        ensures
            v.deep_view() == self@,
    {
        let mut v: Vec<(u32, String)> = Vec::new();
        let mut i: usize = 0;
        while i < self.channels.len()
            invariant
                i <= self.channels.len(),
                v@.len() == i,
                forall|j: int|
                    0 <= j < i ==> (#[trigger] v@[j]).0 == self.channels@[j].client_channel_id
                        && v@[j].1@ == self.channels@[j].channel_name@,
            decreases self.channels.len() - i,
        {
            v.push((self.channels[i].client_channel_id, self.channels[i].channel_name.clone()));
            i = i + 1;
        }
        assert(v.deep_view() =~= self@);
        v
    }

    /// Encodes the body, or reports `FieldTooLong` where there are too many
    /// channels or a name is too long.
    pub fn to_bytes(&self, is_big_endian: bool) -> (r: Result<Vec<u8>, EncodeError>)
        ensures
            r is Ok <==> creatable(self@),
            r matches Ok(v) ==> v@ == create_wire(self@, is_big_endian),
            r matches Err(e) ==> e == EncodeError::FieldTooLong,
    {
        let pairs = self.pairs();
        if pairs.len() > MAX_LIST_U16 || !are_short_names(&pairs) {
            return Err(EncodeError::FieldTooLong);
        }
        let mut out: Vec<u8> = Vec::new();
        put_u16(&mut out, pairs.len() as u16, is_big_endian);
        put_channels(&mut out, &pairs, is_big_endian);
        assert(out@ =~= create_wire(self@, is_big_endian));
        Ok(out)
    }

    /// Decodes the body of a request to create channels.
    pub fn from_bytes(bytes: &[u8], is_big_endian: bool) -> (r: Result<
        CreateChannelRequest,
        DecodeError,
    >)
        ensures
            decoded(r, parse_create(bytes@, is_big_endian)),
    {
        proof {
            lemma_skip_zero(bytes@);
        }
        let (count, p1) = match read_u16(bytes, 0, is_big_endian) {
            Ok(x) => x,
            Err(e) => return Err(e),
        };
        let (mut pairs, p2) = match read_channels(bytes, p1, count as usize, is_big_endian) {
            Ok(x) => x,
            Err(e) => return Err(e),
        };
        match finish(bytes, p2) {
            Ok(()) => {},
            Err(e) => return Err(e),
        }
        let ghost wanted = pairs.deep_view();
        let mut channels: Vec<ChannelInit> = Vec::new();
        let mut i: usize = 0;
        while i < pairs.len()
            invariant
                i <= pairs.len(),
                channels@.len() == i,
                forall|j: int|
                    0 <= j < i ==> (#[trigger] channels@[j]).client_channel_id == pairs@[j].0
                        && channels@[j].channel_name@ == pairs@[j].1@,
            decreases pairs.len() - i,
        {
            channels.push(
                ChannelInit {
                    client_channel_id: pairs[i].0,
                    channel_name: pairs[i].1.clone(),
                },
            );
            i = i + 1;
        }
        assert(inits_of(channels@) =~= wanted);
        Ok(CreateChannelRequest { channels })
    }
}

/// What the response to the creation of one channel says.
pub struct CreateResponseModel {
    pub client_channel_id: u32,
    pub server_channel_id: u32,
    pub status: StatusModel,
}

impl CreateResponseModel {
    /// The body of the response: the two numbers and the status.
    pub open spec fn wire(self, big: bool) -> Seq<u8> {
        u32_bytes(self.client_channel_id, big) + u32_bytes(self.server_channel_id, big)
            + self.status.wire()
    }
}

/// What the body of a response to the creation of a channel says.
pub open spec fn parse_create_response(s: Seq<u8>, big: bool) -> Result<
    CreateResponseModel,
    DecodeError,
> {
    match take_u32(s, big) {
        Err(e) => Err(e),
        Ok((client_channel_id, s1)) => match take_u32(s1, big) {
            Err(e) => Err(e),
            Ok((server_channel_id, s2)) => match exact(take_status(s2)) {
                Err(e) => Err(e),
                Ok(status) => Ok(
                    CreateResponseModel { client_channel_id, server_channel_id, status },
                ),
            },
        },
    }
}

/// Decoding the body of a response to the creation of a channel gives the
/// response back.
pub proof fn lemma_create_response_roundtrip(m: CreateResponseModel, big: bool)
    requires
        m.status.encodable(),
    ensures
        parse_create_response(m.wire(big), big) == Ok::<CreateResponseModel, DecodeError>(m),
{
    let a = u32_bytes(m.client_channel_id, big);
    let b = u32_bytes(m.server_channel_id, big);
    let c = m.status.wire();
    lemma_concat_assoc(a, b, c);
    lemma_take_u32(m.client_channel_id, big, b + c);
    lemma_take_u32(m.server_channel_id, big, c);
    lemma_take_status(m.status, Seq::<u8>::empty());
    assert(c + Seq::<u8>::empty() =~= c);
}

/// The response to the creation of one channel.
#[derive(Debug, Clone, PartialEq, Eq)]
pub struct CreateChannelResponse {
    /// The number that the client gave the channel.
    pub client_channel_id: u32,
    /// The number that the server gave the channel.
    pub server_channel_id: u32,
    /// Whether the channel is there.
    pub status: ResponseCompletionStatus,
}

impl View for CreateChannelResponse {
    type V = CreateResponseModel;

    open spec fn view(&self) -> CreateResponseModel {
        CreateResponseModel {
            client_channel_id: self.client_channel_id,
            server_channel_id: self.server_channel_id,
            status: self.status@,
        }
    }
}

impl CreateChannelResponse {
    /// Encodes the body, or reports `FieldTooLong` where a text of the status
    /// is too long.
    pub fn to_bytes(&self, is_big_endian: bool) -> (r: Result<Vec<u8>, EncodeError>)
        ensures
            r is Ok <==> self@.status.encodable(),
            r matches Ok(v) ==> v@ == self@.wire(is_big_endian),
            r matches Err(e) ==> e == EncodeError::FieldTooLong,
    {
        if !self.status.is_encodable() {
            return Err(EncodeError::FieldTooLong);
        }
        let mut out: Vec<u8> = write_u32_pair(
            self.client_channel_id,
            self.server_channel_id,
            is_big_endian,
        );
        self.status.put(&mut out);
        Ok(out)
    }

    /// Decodes the body of a response to the creation of a channel.
    pub fn from_bytes(bytes: &[u8], is_big_endian: bool) -> (r: Result<
        CreateChannelResponse,
        DecodeError,
    >)
        ensures
            decoded(r, parse_create_response(bytes@, is_big_endian)),
    {
        proof {
            lemma_skip_zero(bytes@);
        }
        let (client_channel_id, p1) = match read_u32(bytes, 0, is_big_endian) {
            Ok(x) => x,
            Err(e) => return Err(e),
        };
        let (server_channel_id, p2) = match read_u32(bytes, p1, is_big_endian) {
            Ok(x) => x,
            Err(e) => return Err(e),
        };
        let (status, p3) = match ResponseCompletionStatus::read(bytes, p2) {
            Ok(x) => x,
            Err(e) => return Err(e),
        };
        match finish(bytes, p3) {
            Ok(()) => Ok(CreateChannelResponse { client_channel_id, server_channel_id, status }),
            Err(e) => Err(e),
        }
    }
}

impl ToBytes for CreateChannelResponse {
    open spec fn encodable(&self) -> bool {
        self@.status.encodable()
    }

    open spec fn wire(&self, big: bool) -> Seq<u8> {
        self@.wire(big)
    }

    fn to_bytes(&self, is_big_endian: bool) -> (r: Result<Vec<u8>, EncodeError>) {
        CreateChannelResponse::to_bytes(self, is_big_endian)
    }
}

impl ToBytes for DestroyChannelResponse {
    open spec fn encodable(&self) -> bool {
        true
    }

    open spec fn wire(&self, big: bool) -> Seq<u8> {
        u32_bytes(self.client_channel_id, big) + u32_bytes(self.server_channel_id, big)
    }

    fn to_bytes(&self, is_big_endian: bool) -> (r: Result<Vec<u8>, EncodeError>) {
        Ok(DestroyChannelResponse::to_bytes(self, is_big_endian))
    }
}

impl ToBytes for CreateChannelRequest {
    open spec fn encodable(&self) -> bool {
        creatable(self@)
    }

    open spec fn wire(&self, big: bool) -> Seq<u8> {
        create_wire(self@, big)
    }

    fn to_bytes(&self, is_big_endian: bool) -> (r: Result<Vec<u8>, EncodeError>) {
        CreateChannelRequest::to_bytes(self, is_big_endian)
    }
}

impl ToBytes for ChannelGetRequest {
    open spec fn encodable(&self) -> bool {
        true
    }

    open spec fn wire(&self, big: bool) -> Seq<u8> {
        request_wire(*self, big)
    }

    fn to_bytes(&self, is_big_endian: bool) -> (r: Result<Vec<u8>, EncodeError>) {
        Ok(ChannelGetRequest::to_bytes(self, is_big_endian))
    }
}

impl ToBytes for DestroyChannelRequest {
    open spec fn encodable(&self) -> bool {
        true
    }

    open spec fn wire(&self, big: bool) -> Seq<u8> {
        u32_bytes(self.client_channel_id, big) + u32_bytes(self.server_channel_id, big)
    }

    fn to_bytes(&self, is_big_endian: bool) -> (r: Result<Vec<u8>, EncodeError>) {
        Ok(DestroyChannelRequest::to_bytes(self, is_big_endian))
    }
}

} // verus!
