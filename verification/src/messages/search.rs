//! The search request, by which a client asks who serves a channel, and the
//! response of a server that does.

use crate::error::{DecodeError, EncodeError};
use crate::messages::into::ToBytes;
use crate::wire::{
    are_short_texts, decoded, exact, finish, is_short_text, lemma_concat_assoc,
    lemma_list_wire_push, lemma_take_list_ends, lemma_take_list_roundtrip, lemma_take_list_step,
    lemma_take_string, lemma_take_strings, lemma_take_u32, lemma_u16_at, lemma_u32_at, list_wire,
    prepend, put_bytes, put_string, put_strings, put_u16, put_u32, put_u8, read_array, read_string,
    read_strings, read_u16, read_u32, short_text, short_texts, string_bytes, string_enc,
    string_item, take_list, take_string, take_u32, u16_at, u16_bytes, u32_at, u32_bytes,
};
use vstd::prelude::*;

verus! {

/// The length of a search request up to its count of protocol names.
pub const SEARCH_REQUEST_FIXED_LENGTH: usize = 26;

/// The length of a search response up to its protocol name.
pub const SEARCH_RESPONSE_FIXED_LENGTH: usize = 34;

/// The most items that a 16-bit count can announce.
pub const MAX_LIST_U16: usize = 0xFFFF;

/// The most items that a one-byte count can announce.
pub const MAX_LIST_U8: usize = 0xFF;

/// One channel that is searched for: an instance number and the name.
pub open spec fn take_channel(s: Seq<u8>, big: bool) -> Result<
    ((u32, Seq<char>), Seq<u8>),
    DecodeError,
> {
    match take_u32(s, big) {
        Err(e) => Err(e),
        Ok((id, s1)) => match take_string(s1) {
            Err(e) => Err(e),
            Ok((name, s2)) => Ok(((id, name), s2)),
        },
    }
}

/// The bytes of one channel that is searched for.
pub open spec fn channel_bytes(channel: (u32, Seq<char>), big: bool) -> Seq<u8> {
    u32_bytes(channel.0, big) + string_bytes(channel.1)
}

/// The reader of one channel, as a grammar for the items of a list.
pub open spec fn channel_item(big: bool) -> spec_fn(Seq<u8>) -> Result<
    ((u32, Seq<char>), Seq<u8>),
    DecodeError,
> {
    |s: Seq<u8>| take_channel(s, big)
}

/// The writer of one channel, as a grammar for the items of a list.
pub open spec fn channel_enc(big: bool) -> spec_fn((u32, Seq<char>)) -> Seq<u8> {
    |channel: (u32, Seq<char>)| channel_bytes(channel, big)
}

/// The reader of one instance number, as a grammar for the items of a list.
pub open spec fn id_item(big: bool) -> spec_fn(Seq<u8>) -> Result<(u32, Seq<u8>), DecodeError> {
    |s: Seq<u8>| take_u32(s, big)
}

/// The writer of one instance number, as a grammar for the items of a list.
pub open spec fn id_enc(big: bool) -> spec_fn(u32) -> Seq<u8> {
    |id: u32| u32_bytes(id, big)
}

/// Whether the name of every channel fits behind a one-byte length.
pub open spec fn short_names(channels: Seq<(u32, Seq<char>)>) -> bool {
    forall|i: int| 0 <= i < channels.len() ==> short_text((#[trigger] channels[i]).1)
}

/// A list of channels that was written is read back, whatever follows.
pub proof fn lemma_take_channels(channels: Seq<(u32, Seq<char>)>, big: bool, rest: Seq<u8>)
    requires
        short_names(channels),
    ensures
        take_list(channel_item(big), list_wire(channel_enc(big), channels) + rest, channels.len())
            == Ok::<(Seq<(u32, Seq<char>)>, Seq<u8>), DecodeError>((channels, rest)),
{
    assert forall|i: int, r: Seq<u8>| 0 <= i < channels.len() implies #[trigger] channel_item(big)(
        channel_enc(big)(channels[i]) + r,
    ) == Ok::<((u32, Seq<char>), Seq<u8>), DecodeError>((channels[i], r)) by {
        let c = channels[i];
        lemma_concat_assoc(u32_bytes(c.0, big), string_bytes(c.1), r);
        lemma_take_u32(c.0, big, string_bytes(c.1) + r);
        lemma_take_string(c.1, r);
    }
    lemma_take_list_roundtrip(channel_item(big), channel_enc(big), channels, rest);
}

/// A list of instance numbers that was written is read back, whatever
/// follows.
pub proof fn lemma_take_ids(ids: Seq<u32>, big: bool, rest: Seq<u8>)
    ensures
        take_list(id_item(big), list_wire(id_enc(big), ids) + rest, ids.len()) == Ok::<
            (Seq<u32>, Seq<u8>),
            DecodeError,
        >((ids, rest)),
{
    assert forall|i: int, r: Seq<u8>| 0 <= i < ids.len() implies #[trigger] id_item(big)(
        id_enc(big)(ids[i]) + r,
    ) == Ok::<(u32, Seq<u8>), DecodeError>((ids[i], r)) by {
        lemma_take_u32(ids[i], big, r);
    }
    lemma_take_list_roundtrip(id_item(big), id_enc(big), ids, rest);
}

pub(crate) fn are_short_names(channels: &Vec<(u32, String)>) -> (b: bool)
    ensures
        b == short_names(channels.deep_view()),
{
    let mut i: usize = 0;
    while i < channels.len()
        invariant
            i <= channels.len(),
            forall|j: int| 0 <= j < i ==> short_text((#[trigger] channels.deep_view()[j]).1),
        decreases channels.len() - i,
    {
        if !is_short_text(channels[i].1.as_str()) {
            assert(!short_text(channels.deep_view()[i as int].1));
            return false;
        }
        i = i + 1;
    }
    true
}

pub(crate) fn put_channels(out: &mut Vec<u8>, channels: &Vec<(u32, String)>, big: bool)
    requires
        short_names(channels.deep_view()),
    ensures
        final(out)@ == old(out)@ + list_wire(channel_enc(big), channels.deep_view()),
{
    let ghost before = out@;
    let ghost items = channels.deep_view();
    let mut i: usize = 0;
    assert(items.take(0) =~= Seq::<(u32, Seq<char>)>::empty());
    assert(before + Seq::<u8>::empty() =~= before);
    while i < channels.len()
        invariant
            i <= channels.len(),
            items == channels.deep_view(),
            short_names(items),
            out@ == before + list_wire(channel_enc(big), items.take(i as int)),
        decreases channels.len() - i,
    {
        let ghost so_far = out@;
        proof {
            lemma_list_wire_push(channel_enc(big), items.take(i as int), items[i as int]);
            assert(items.take(i as int).push(items[i as int]) =~= items.take(i + 1));
            lemma_concat_assoc(
                before,
                list_wire(channel_enc(big), items.take(i as int)),
                channel_bytes(items[i as int], big),
            );
            lemma_concat_assoc(
                so_far,
                u32_bytes(items[i as int].0, big),
                string_bytes(items[i as int].1),
            );
        }
        put_u32(out, channels[i].0, big);
        put_string(out, channels[i].1.as_str());
        i = i + 1;
    }
    assert(items.take(channels.len() as int) =~= items);
}

pub(crate) fn read_channels(bytes: &[u8], pos: usize, count: usize, big: bool) -> (r: Result<
    (Vec<(u32, String)>, usize),
    DecodeError,
>)
    requires
        pos <= bytes@.len(),
    ensures
        match r {
            Ok((v, next)) => next <= bytes@.len() && take_list(
                channel_item(big),
                bytes@.skip(pos as int),
                count as nat,
            ) == Ok::<(Seq<(u32, Seq<char>)>, Seq<u8>), DecodeError>(
                (v.deep_view(), bytes@.skip(next as int)),
            ),
            Err(e) => take_list(channel_item(big), bytes@.skip(pos as int), count as nat) == Err::<
                (Seq<(u32, Seq<char>)>, Seq<u8>),
                DecodeError,
            >(e),
        },
{
    let ghost whole = take_list(channel_item(big), bytes@.skip(pos as int), count as nat);
    let mut acc: Vec<(u32, String)> = Vec::new();
    let mut at: usize = pos;
    let mut i: usize = 0;
    proof {
        lemma_take_list_ends(
            channel_item(big),
            bytes@.skip(pos as int),
            count as nat,
            acc.deep_view(),
        );
        assert(acc.deep_view() =~= Seq::<(u32, Seq<char>)>::empty());
    }
    while i < count
        invariant
            i <= count,
            at <= bytes@.len(),
            whole == take_list(channel_item(big), bytes@.skip(pos as int), count as nat),
            whole == prepend(
                acc.deep_view(),
                take_list(channel_item(big), bytes@.skip(at as int), (count - i) as nat),
            ),
        decreases count - i,
    {
        proof {
            lemma_take_list_step(
                channel_item(big),
                bytes@.skip(at as int),
                (count - i) as nat,
                acc.deep_view(),
            );
            assert(channel_item(big)(bytes@.skip(at as int)) == take_channel(
                bytes@.skip(at as int),
                big,
            ));
        }
        let ghost before = acc.deep_view();
        let (id, p1) = match read_u32(bytes, at, big) {
            Ok(x) => x,
            Err(e) => return Err(e),
        };
        let (name, p2) = match read_string(bytes, p1) {
            Ok(x) => x,
            Err(e) => return Err(e),
        };
        acc.push((id, name));
        assert(acc.deep_view() =~= before.push((id, name@)));
        at = p2;
        i = i + 1;
    }
    proof {
        lemma_take_list_ends(channel_item(big), bytes@.skip(at as int), 0, acc.deep_view());
    }
    Ok((acc, at))
}

pub(crate) fn put_ids(out: &mut Vec<u8>, ids: &Vec<u32>, big: bool)
    ensures
        final(out)@ == old(out)@ + list_wire(id_enc(big), ids@),
{
    let ghost before = out@;
    let ghost items = ids@;
    let mut i: usize = 0;
    assert(items.take(0) =~= Seq::<u32>::empty());
    assert(before + Seq::<u8>::empty() =~= before);
    while i < ids.len()
        invariant
            i <= ids.len(),
            items == ids@,
            out@ == before + list_wire(id_enc(big), items.take(i as int)),
        decreases ids.len() - i,
    {
        proof {
            lemma_list_wire_push(id_enc(big), items.take(i as int), items[i as int]);
            assert(items.take(i as int).push(items[i as int]) =~= items.take(i + 1));
            lemma_concat_assoc(
                before,
                list_wire(id_enc(big), items.take(i as int)),
                u32_bytes(items[i as int], big),
            );
        }
        put_u32(out, ids[i], big);
        i = i + 1;
    }
    assert(items.take(ids.len() as int) =~= items);
}

pub(crate) fn read_ids(bytes: &[u8], pos: usize, count: usize, big: bool) -> (r: Result<
    (Vec<u32>, usize),
    DecodeError,
>)
    requires
        pos <= bytes@.len(),
    ensures
        match r {
            Ok((v, next)) => next <= bytes@.len() && take_list(
                id_item(big),
                bytes@.skip(pos as int),
                count as nat,
            ) == Ok::<(Seq<u32>, Seq<u8>), DecodeError>((v@, bytes@.skip(next as int))),
            Err(e) => take_list(id_item(big), bytes@.skip(pos as int), count as nat) == Err::<
                (Seq<u32>, Seq<u8>),
                DecodeError,
            >(e),
        },
{
    let ghost whole = take_list(id_item(big), bytes@.skip(pos as int), count as nat);
    let mut acc: Vec<u32> = Vec::new();
    let mut at: usize = pos;
    let mut i: usize = 0;
    proof {
        lemma_take_list_ends(id_item(big), bytes@.skip(pos as int), count as nat, acc@);
        assert(acc@ =~= Seq::<u32>::empty());
    }
    while i < count
        invariant
            i <= count,
            at <= bytes@.len(),
            whole == take_list(id_item(big), bytes@.skip(pos as int), count as nat),
            whole == prepend(
                acc@,
                take_list(id_item(big), bytes@.skip(at as int), (count - i) as nat),
            ),
        decreases count - i,
    {
        proof {
            lemma_take_list_step(id_item(big), bytes@.skip(at as int), (count - i) as nat, acc@);
            assert(id_item(big)(bytes@.skip(at as int)) == take_u32(bytes@.skip(at as int), big));
        }
        let (id, next) = match read_u32(bytes, at, big) {
            Ok(x) => x,
            Err(e) => return Err(e),
        };
        acc.push(id);
        at = next;
        i = i + 1;
    }
    proof {
        lemma_take_list_ends(id_item(big), bytes@.skip(at as int), 0, acc@);
    }
    Ok((acc, at))
}

/// What a search request says.
pub struct SearchRequestModel {
    pub search_sequence_id: u32,
    pub flags: u8,
    pub response_address: Seq<u8>,
    pub response_port: u16,
    pub protocols: Seq<Seq<char>>,
    pub channels: Seq<(u32, Seq<char>)>,
}

impl SearchRequestModel {
    /// The address has sixteen bytes.
    pub open spec fn wf(self) -> bool {
        self.response_address.len() == 16
    }

    /// Both counts and every name fit behind their lengths.
    pub open spec fn encodable(self) -> bool {
        &&& self.protocols.len() <= MAX_LIST_U8
        &&& short_texts(self.protocols)
        &&& self.channels.len() <= MAX_LIST_U16
        &&& short_names(self.channels)
    }

    /// The body of the request. The three reserved bytes are zero.
    pub open spec fn wire(self, big: bool) -> Seq<u8> {
        u32_bytes(self.search_sequence_id, big) + seq![self.flags, 0u8, 0u8, 0u8]
            + self.response_address + u16_bytes(self.response_port, big) + seq![
            self.protocols.len() as u8,
        ] + list_wire(string_enc(), self.protocols) + u16_bytes(self.channels.len() as u16, big)
            + list_wire(channel_enc(big), self.channels)
    }
}

/// The two lists of a search request: the protocol names, of which there are
/// `count`, and the channels behind their 16-bit count.
pub open spec fn take_search_lists(s: Seq<u8>, count: nat, big: bool) -> Result<
    (Seq<Seq<char>>, Seq<(u32, Seq<char>)>),
    DecodeError,
> {
    match take_list(string_item(), s, count) {
        Err(e) => Err(e),
        Ok((protocols, s1)) => if s1.len() < 2 {
            Err(DecodeError::Truncated)
        } else {
            match exact(take_list(channel_item(big), s1.skip(2), u16_at(s1, big) as nat)) {
                Err(e) => Err(e),
                Ok(channels) => Ok((protocols, channels)),
            }
        },
    }
}

/// What the body of a search request says. The three reserved bytes may hold
/// anything.
pub open spec fn parse_search_request(s: Seq<u8>, big: bool) -> Result<
    SearchRequestModel,
    DecodeError,
> {
    if s.len() < 27 {
        Err(DecodeError::Truncated)
    } else {
        match take_search_lists(s.skip(27), s[26] as nat, big) {
            Err(e) => Err(e),
            Ok((protocols, channels)) => Ok(
                SearchRequestModel {
                    search_sequence_id: u32_at(s.skip(0), big),
                    flags: s[4],
                    response_address: s.subrange(8, 24),
                    response_port: u16_at(s.skip(24), big),
                    protocols,
                    channels,
                },
            ),
        }
    }
}

/// The part of a search request that comes before the protocol names.
pub open spec fn search_request_head(m: SearchRequestModel, big: bool) -> Seq<u8> {
    u32_bytes(m.search_sequence_id, big) + seq![m.flags, 0u8, 0u8, 0u8] + m.response_address
        + u16_bytes(m.response_port, big) + seq![m.protocols.len() as u8]
}

/// The two lists of a search request.
pub open spec fn search_lists_wire(m: SearchRequestModel, big: bool) -> Seq<u8> {
    list_wire(string_enc(), m.protocols) + (u16_bytes(m.channels.len() as u16, big) + list_wire(
        channel_enc(big),
        m.channels,
    ))
}

proof fn lemma_search_request_parts(m: SearchRequestModel, big: bool)
    requires
        m.wf(),
    ensures
        search_request_head(m, big).len() == 27,
        m.wire(big) == search_request_head(m, big) + search_lists_wire(m, big),
        search_request_head(m, big).subrange(0, 4) == u32_bytes(m.search_sequence_id, big),
        search_request_head(m, big)[4] == m.flags,
        search_request_head(m, big).subrange(8, 24) == m.response_address,
        search_request_head(m, big).subrange(24, 26) == u16_bytes(m.response_port, big),
        search_request_head(m, big)[26] == m.protocols.len() as u8,
{
    let head = search_request_head(m, big);
    let protocols = list_wire(string_enc(), m.protocols);
    let count = u16_bytes(m.channels.len() as u16, big);
    let channels = list_wire(channel_enc(big), m.channels);
    lemma_concat_assoc(head + protocols, count, channels);
    lemma_concat_assoc(head, protocols, count + channels);
    assert(head.subrange(0, 4) =~= u32_bytes(m.search_sequence_id, big));
    assert(head.subrange(8, 24) =~= m.response_address);
    assert(head.subrange(24, 26) =~= u16_bytes(m.response_port, big));
}

proof fn lemma_search_lists(m: SearchRequestModel, big: bool)
    requires
        m.encodable(),
    ensures
        take_search_lists(search_lists_wire(m, big), m.protocols.len(), big) == Ok::<
            (Seq<Seq<char>>, Seq<(u32, Seq<char>)>),
            DecodeError,
        >((m.protocols, m.channels)),
{
    let count = u16_bytes(m.channels.len() as u16, big);
    let channels = list_wire(channel_enc(big), m.channels);
    let s1 = count + channels;
    lemma_take_strings(m.protocols, s1);
    crate::wire::lemma_take_u16(m.channels.len() as u16, big, channels);
    assert(s1.skip(2) =~= channels + Seq::<u8>::empty());
    lemma_take_channels(m.channels, big, Seq::<u8>::empty());
}

/// Decoding the body of a search request gives the request back.
pub proof fn lemma_search_request_roundtrip(m: SearchRequestModel, big: bool)
    requires
        m.wf(),
        m.encodable(),
    ensures
        parse_search_request(m.wire(big), big) == Ok::<SearchRequestModel, DecodeError>(m),
{
    let s = m.wire(big);
    let head = search_request_head(m, big);
    let tail = search_lists_wire(m, big);
    lemma_search_request_parts(m, big);
    crate::wire::lemma_split(head, tail, 0, 4);
    crate::wire::lemma_split(head, tail, 4, 5);
    crate::wire::lemma_split(head, tail, 8, 24);
    crate::wire::lemma_split(head, tail, 24, 26);
    crate::wire::lemma_split(head, tail, 26, 27);
    assert(s[4] == s.subrange(4, 5)[0]);
    assert(s[26] == s.subrange(26, 27)[0]);
    assert(head[4] == head.subrange(4, 5)[0]);
    assert(head[26] == head.subrange(26, 27)[0]);
    lemma_u32_at(m.search_sequence_id, big, s, 0);
    lemma_u16_at(m.response_port, big, s, 24);
    lemma_search_lists(m, big);
}

/// A search request.
#[derive(Debug, Clone, PartialEq, Eq)]
pub struct SearchRequest {
    /// The number of this search, which the response repeats.
    pub search_sequence_id: u32,
    /// Bit 0: a reply is required; bit 7: the request was sent unicast.
    pub flags: u8,
    /// The address that responses go to.
    pub response_address: [u8; 16],
    /// The port that responses go to.
    pub response_port: u16,
    /// The names of the transports that the client accepts.
    pub protocols: Vec<String>,
    /// The channels that are searched for, each with its instance number.
    pub channels: Vec<(u32, String)>,
}

impl View for SearchRequest {
    type V = SearchRequestModel;

    open spec fn view(&self) -> SearchRequestModel {
        SearchRequestModel {
            search_sequence_id: self.search_sequence_id,
            flags: self.flags,
            response_address: self.response_address@,
            response_port: self.response_port,
            protocols: self.protocols.deep_view(),
            channels: self.channels.deep_view(),
        }
    }
}

impl ToBytes for SearchRequest {
    open spec fn encodable(&self) -> bool {
        self@.encodable()
    }

    open spec fn wire(&self, big: bool) -> Seq<u8> {
        self@.wire(big)
    }

    fn to_bytes(&self, is_big_endian: bool) -> (r: Result<Vec<u8>, EncodeError>) {
        SearchRequest::to_bytes(self, is_big_endian)
    }
}

impl SearchRequest {
    /// Encodes the body, or reports `FieldTooLong` and writes nothing where a
    /// field does not fit behind its length prefix.
    pub fn to_bytes(&self, is_big_endian: bool) -> (r: Result<Vec<u8>, EncodeError>)
        ensures
            r is Ok <==> self@.encodable(),
            r matches Ok(v) ==> v@ == self@.wire(is_big_endian),
            r matches Err(e) ==> e == EncodeError::FieldTooLong,
    {
        if self.protocols.len() > MAX_LIST_U8 || !are_short_texts(&self.protocols) {
            return Err(EncodeError::FieldTooLong);
        }
        if self.channels.len() > MAX_LIST_U16 || !are_short_names(&self.channels) {
            return Err(EncodeError::FieldTooLong);
        }
        let mut out: Vec<u8> = Vec::new();
        put_u32(&mut out, self.search_sequence_id, is_big_endian);
        put_u8(&mut out, self.flags);
        put_u8(&mut out, 0);
        put_u8(&mut out, 0);
        put_u8(&mut out, 0);
        put_bytes(&mut out, self.response_address.as_slice());
        put_u16(&mut out, self.response_port, is_big_endian);
        put_u8(&mut out, self.protocols.len() as u8);
        put_strings(&mut out, &self.protocols);
        put_u16(&mut out, self.channels.len() as u16, is_big_endian);
        put_channels(&mut out, &self.channels, is_big_endian);
        assert(out@ =~= self@.wire(is_big_endian));
        Ok(out)
    }

    /// Decodes the body of a search request.
    pub fn from_bytes(bytes: &[u8], is_big_endian: bool) -> (r: Result<SearchRequest, DecodeError>)
        ensures
            decoded(r, parse_search_request(bytes@, is_big_endian)),
            r matches Ok(m) ==> m@.wf(),
    {
        if bytes.len() < SEARCH_REQUEST_FIXED_LENGTH + 1 {
            return Err(DecodeError::Truncated);
        }
        let search_sequence_id: u32 = match read_u32(bytes, 0, is_big_endian) {
            Ok((n, _)) => n,
            Err(e) => return Err(e),
        };
        let flags: u8 = bytes[4];
        let response_address: [u8; 16] = read_array::<16>(bytes, 8);
        let response_port: u16 = match read_u16(bytes, 24, is_big_endian) {
            Ok((n, _)) => n,
            Err(e) => return Err(e),
        };
        let protocol_count: u8 = bytes[26];
        let (protocols, p1) = match read_strings(bytes, 27, protocol_count as usize) {
            Ok(x) => x,
            Err(e) => return Err(e),
        };
        let (channel_count, p2) = match read_u16(bytes, p1, is_big_endian) {
            Ok(x) => x,
            Err(e) => return Err(e),
        };
        let (channels, p3) = match read_channels(bytes, p2, channel_count as usize, is_big_endian) {
            Ok(x) => x,
            Err(e) => return Err(e),
        };
        match finish(bytes, p3) {
            Ok(()) => {},
            Err(e) => return Err(e),
        }
        Ok(
            SearchRequest {
                search_sequence_id,
                flags,
                response_address,
                response_port,
                protocols,
                channels,
            },
        )
    }
}

/// What a search response says.
pub struct SearchResponseModel {
    pub guid: Seq<u8>,
    pub search_sequence_id: u32,
    pub server_address: Seq<u8>,
    pub server_port: u16,
    pub protocol: Seq<char>,
    pub found: bool,
    pub search_instance_ids: Seq<u32>,
}

impl SearchResponseModel {
    /// The identifier has twelve bytes and the address sixteen.
    pub open spec fn wf(self) -> bool {
        self.guid.len() == 12 && self.server_address.len() == 16
    }

    /// The protocol name and the count fit behind their lengths.
    pub open spec fn encodable(self) -> bool {
        short_text(self.protocol) && self.search_instance_ids.len() <= MAX_LIST_U16
    }

    /// The body of the response.
    pub open spec fn wire(self, big: bool) -> Seq<u8> {
        self.guid + u32_bytes(self.search_sequence_id, big) + self.server_address + u16_bytes(
            self.server_port,
            big,
        ) + string_bytes(self.protocol) + seq![
            if self.found {
                1u8
            } else {
                0u8
            },
        ] + u16_bytes(self.search_instance_ids.len() as u16, big) + list_wire(
            id_enc(big),
            self.search_instance_ids,
        )
    }
}

/// What follows the protocol name of a search response: whether the channels
/// were found, and the instance numbers behind their 16-bit count.
pub open spec fn take_search_found(s: Seq<u8>, big: bool) -> Result<(bool, Seq<u32>), DecodeError> {
    if s.len() < 3 {
        Err(DecodeError::Truncated)
    } else {
        match exact(take_list(id_item(big), s.skip(3), u16_at(s.skip(1), big) as nat)) {
            Err(e) => Err(e),
            Ok(ids) => Ok((s[0] != 0, ids)),
        }
    }
}

/// What the body of a search response says.
pub open spec fn parse_search_response(s: Seq<u8>, big: bool) -> Result<
    SearchResponseModel,
    DecodeError,
> {
    if s.len() < 34 {
        Err(DecodeError::Truncated)
    } else {
        match take_string(s.skip(34)) {
            Err(e) => Err(e),
            Ok((protocol, s1)) => match take_search_found(s1, big) {
                Err(e) => Err(e),
                Ok((found, ids)) => Ok(
                    SearchResponseModel {
                        guid: s.subrange(0, 12),
                        search_sequence_id: u32_at(s.skip(12), big),
                        server_address: s.subrange(16, 32),
                        server_port: u16_at(s.skip(32), big),
                        protocol,
                        found,
                        search_instance_ids: ids,
                    },
                ),
            },
        }
    }
}

/// The bytes that follow the protocol name of a search response.
pub open spec fn search_found_wire(found: bool, ids: Seq<u32>, big: bool) -> Seq<u8> {
    seq![
        if found {
            1u8
        } else {
            0u8
        },
    ] + u16_bytes(ids.len() as u16, big) + list_wire(id_enc(big), ids)
}

/// What follows the protocol name of a search response is read back as it
/// was written.
pub proof fn lemma_search_found(found: bool, ids: Seq<u32>, big: bool)
    requires
        ids.len() <= MAX_LIST_U16,
    ensures
        take_search_found(search_found_wire(found, ids, big), big) == Ok::<
            (bool, Seq<u32>),
            DecodeError,
        >((found, ids)),
{
    let s1 = search_found_wire(found, ids, big);
    let count = u16_bytes(ids.len() as u16, big);
    let list = list_wire(id_enc(big), ids);
    assert(s1.subrange(1, 3) =~= count);
    lemma_u16_at(ids.len() as u16, big, s1, 1);
    assert(s1.skip(3) =~= list + Seq::<u8>::empty());
    lemma_take_ids(ids, big, Seq::<u8>::empty());
}

/// The part of a search response that comes before the protocol name.
pub open spec fn search_response_head(m: SearchResponseModel, big: bool) -> Seq<u8> {
    m.guid + u32_bytes(m.search_sequence_id, big) + m.server_address + u16_bytes(
        m.server_port,
        big,
    )
}

proof fn lemma_search_response_parts(m: SearchResponseModel, big: bool)
    requires
        m.wf(),
    ensures
        search_response_head(m, big).len() == 34,
        m.wire(big) == search_response_head(m, big) + (string_bytes(m.protocol)
            + search_found_wire(m.found, m.search_instance_ids, big)),
        search_response_head(m, big).subrange(0, 12) == m.guid,
        search_response_head(m, big).subrange(12, 16) == u32_bytes(m.search_sequence_id, big),
        search_response_head(m, big).subrange(16, 32) == m.server_address,
        search_response_head(m, big).subrange(32, 34) == u16_bytes(m.server_port, big),
{
    let head = search_response_head(m, big);
    let text = string_bytes(m.protocol);
    let found = seq![
        if m.found {
            1u8
        } else {
            0u8
        },
    ];
    let count = u16_bytes(m.search_instance_ids.len() as u16, big);
    let ids = list_wire(id_enc(big), m.search_instance_ids);
    lemma_concat_assoc(found, count, ids);
    lemma_concat_assoc(head + text, found + count, ids);
    lemma_concat_assoc(head + text, found, count);
    lemma_concat_assoc(head, text, found + count + ids);
    assert(head.subrange(0, 12) =~= m.guid);
    assert(head.subrange(12, 16) =~= u32_bytes(m.search_sequence_id, big));
    assert(head.subrange(16, 32) =~= m.server_address);
    assert(head.subrange(32, 34) =~= u16_bytes(m.server_port, big));
}

/// Decoding the body of a search response gives the response back.
pub proof fn lemma_search_response_roundtrip(m: SearchResponseModel, big: bool)
    requires
        m.wf(),
        m.encodable(),
    ensures
        parse_search_response(m.wire(big), big) == Ok::<SearchResponseModel, DecodeError>(m),
{
    let s = m.wire(big);
    let head = search_response_head(m, big);
    let s1 = search_found_wire(m.found, m.search_instance_ids, big);
    let tail = string_bytes(m.protocol) + s1;
    lemma_search_response_parts(m, big);
    crate::wire::lemma_split(head, tail, 0, 12);
    crate::wire::lemma_split(head, tail, 12, 16);
    crate::wire::lemma_split(head, tail, 16, 32);
    crate::wire::lemma_split(head, tail, 32, 34);
    lemma_u32_at(m.search_sequence_id, big, s, 12);
    lemma_u16_at(m.server_port, big, s, 32);
    lemma_take_string(m.protocol, s1);
    lemma_search_found(m.found, m.search_instance_ids, big);
}

/// A search response.
#[derive(Debug, Clone, PartialEq, Eq)]
pub struct SearchResponse {
    /// The identifier of the server.
    pub guid: [u8; 12],
    /// The number of the search that is answered.
    pub search_sequence_id: u32,
    /// The address of the server; an IPv4 address in its mapped form.
    pub server_address: [u8; 16],
    /// The TCP port of the server.
    pub server_port: u16,
    /// The name of the transport, usually `tcp`.
    pub protocol: String,
    /// Whether the server has the channels.
    pub found: bool,
    /// The instance numbers of the channels that were found.
    pub search_instance_ids: Vec<u32>,
}

impl View for SearchResponse {
    type V = SearchResponseModel;

    open spec fn view(&self) -> SearchResponseModel {
        SearchResponseModel {
            guid: self.guid@,
            search_sequence_id: self.search_sequence_id,
            server_address: self.server_address@,
            server_port: self.server_port,
            protocol: self.protocol@,
            found: self.found,
            search_instance_ids: self.search_instance_ids@,
        }
    }
}

impl ToBytes for SearchResponse {
    open spec fn encodable(&self) -> bool {
        self@.encodable()
    }

    open spec fn wire(&self, big: bool) -> Seq<u8> {
        self@.wire(big)
    }

    fn to_bytes(&self, is_big_endian: bool) -> (r: Result<Vec<u8>, EncodeError>) {
        SearchResponse::to_bytes(self, is_big_endian)
    }
}

impl SearchResponse {
    /// Encodes the body, or reports `FieldTooLong` and writes nothing where a
    /// field does not fit behind its length prefix.
    pub fn to_bytes(&self, is_big_endian: bool) -> (r: Result<Vec<u8>, EncodeError>)
        ensures
            r is Ok <==> self@.encodable(),
            r matches Ok(v) ==> v@ == self@.wire(is_big_endian),
            r matches Err(e) ==> e == EncodeError::FieldTooLong,
    {
        if !is_short_text(self.protocol.as_str()) || self.search_instance_ids.len() > MAX_LIST_U16 {
            return Err(EncodeError::FieldTooLong);
        }
        let mut out: Vec<u8> = Vec::new();
        put_bytes(&mut out, self.guid.as_slice());
        put_u32(&mut out, self.search_sequence_id, is_big_endian);
        put_bytes(&mut out, self.server_address.as_slice());
        put_u16(&mut out, self.server_port, is_big_endian);
        put_string(&mut out, self.protocol.as_str());
        put_u8(
            &mut out,
            if self.found {
                1
            } else {
                0
            },
        );
        put_u16(&mut out, self.search_instance_ids.len() as u16, is_big_endian);
        put_ids(&mut out, &self.search_instance_ids, is_big_endian);
        assert(out@ =~= self@.wire(is_big_endian));
        Ok(out)
    }

    /// Decodes the body of a search response.
    pub fn from_bytes(bytes: &[u8], is_big_endian: bool) -> (r: Result<
        SearchResponse,
        DecodeError,
    >)
        ensures
            decoded(r, parse_search_response(bytes@, is_big_endian)),
            r matches Ok(m) ==> m@.wf(),
    {
        if bytes.len() < SEARCH_RESPONSE_FIXED_LENGTH {
            return Err(DecodeError::Truncated);
        }
        let guid: [u8; 12] = read_array::<12>(bytes, 0);
        let search_sequence_id: u32 = match read_u32(bytes, 12, is_big_endian) {
            Ok((n, _)) => n,
            Err(e) => return Err(e),
        };
        let server_address: [u8; 16] = read_array::<16>(bytes, 16);
        let server_port: u16 = match read_u16(bytes, 32, is_big_endian) {
            Ok((n, _)) => n,
            Err(e) => return Err(e),
        };
        let (protocol, p1) = match read_string(bytes, 34) {
            Ok(x) => x,
            Err(e) => return Err(e),
        };
        if bytes.len() - p1 < 3 {
            return Err(DecodeError::Truncated);
        }
        let found: bool = bytes[p1] != 0;
        proof {
            crate::wire::lemma_skip_skip(bytes@, p1 as int, 1);
            crate::wire::lemma_skip_skip(bytes@, p1 as int, 3);
        }
        let count: u16 = match read_u16(bytes, p1 + 1, is_big_endian) {
            Ok((n, _)) => n,
            Err(e) => return Err(e),
        };
        let (search_instance_ids, p2) = match read_ids(
            bytes,
            p1 + 3,
            count as usize,
            is_big_endian,
        ) {
            Ok(x) => x,
            Err(e) => return Err(e),
        };
        match finish(bytes, p2) {
            Ok(()) => {},
            Err(e) => return Err(e),
        }
        Ok(
            SearchResponse {
                guid,
                search_sequence_id,
                server_address,
                server_port,
                protocol,
                found,
                search_instance_ids,
            },
        )
    }
}

} // verus!
