//! The roles that a server plays towards the session engine, as traits, and
//! the server of this library in each of them.

use crate::channel::history_after;
use crate::error::{DecodeError, FrameError};
use crate::header::{parse_header, PvAccessHeader};
use crate::messages::admin::{
    parse_get_field, parse_message, parse_status_response, ChannelGetFieldRequest,
    ChannelProceesResponseInit, DestroyRequest, PvMessage,
};
use crate::messages::channel::{
    CreateChannelRequest, CreateChannelResponse, DestroyChannelRequest, DestroyChannelResponse,
};
use crate::messages::echo::{EchoMessage, EchoResponse};
use crate::messages::search::{SearchRequest, SearchResponse};
use crate::registry::{bumped, has_id, has_name, oldest};
use crate::server::{
    answers, appended, extends, found_ids, grown, removed, PVAccessServer,
};
use crate::wire::{decoded, ipv4_mapped, parse_u32_pair};
use vstd::prelude::*;

verus! {

/// A server of some protocol that holds channels by name.
pub trait ProtocolServer {
    /// The header of the protocol's messages.
    type Header;

    /// Whether the server is in a state in which it can be used.
    spec fn ready(&self) -> bool;

    /// The message by which the server announces itself.
    fn discover_message(&self) -> Vec<u8>;

    /// The header at the start of `data`.
    fn parse_header(&self, data: &[u8]) -> Result<Self::Header, FrameError>;

    /// Creates a channel of that name. Says whether one was created.
    fn create_channel(&mut self, name: &str, now: u64) -> (created: bool)
        requires
            old(self).ready(),
        ensures
            final(self).ready(),
    ;

    /// Removes the channel of that name. Says whether there was one.
    fn delete_channel(&mut self, name: &str) -> (deleted: bool)
        requires
            old(self).ready(),
        ensures
            final(self).ready(),
    ;

    /// The names of the channels.
    fn list_channels(&self) -> Vec<String>;

    /// Adds a message to a channel. Says whether there is such a channel.
    fn channel_put(&mut self, channel_name: &str, message: Vec<u8>, now: u64) -> (put: bool)
        requires
            old(self).ready(),
        ensures
            final(self).ready(),
    ;

    /// The oldest messages of a channel, at most `limit` of them.
    fn channel_get(&self, channel_name: &str, limit: usize) -> Vec<Vec<u8>>;
}

impl ProtocolServer for PVAccessServer {
    type Header = PvAccessHeader;

    open spec fn ready(&self) -> bool {
        self.wf()
    }

    /// The body of the first beacon of the server: big-endian, with the
    /// sequence number zero.
    fn discover_message(&self) -> (out: Vec<u8>)
        ensures
            out@ == self.announcement().wire(true),
    {
        PVAccessServer::discover_message(self)
    }

    /// The frame header at the start of `data`, or why there is none.
    fn parse_header(&self, data: &[u8]) -> (r: Result<PvAccessHeader, FrameError>)
        ensures
            r == parse_header(data@),
    {
        PVAccessServer::parse_header(self, data)
    }

    /// Creates a channel of that name unless there is one or the numbers
    /// have run out. The new channel stands after the channels that were
    /// there, with the next number, an empty history of the default
    /// capacity and no subscriber; the count of changes goes up.
    fn create_channel(&mut self, name: &str, now: u64) -> (created: bool)
        ensures
            final(self).guid == old(self).guid,
            final(self).server_ip == old(self).server_ip,
            final(self).server_port == old(self).server_port,
            created == (!has_name(old(self).registry.entries(), name@) && old(self).registry.next_id() < u32::MAX),
            created ==> has_name(final(self).registry.entries(), name@),
            created ==> appended(old(self).registry, final(self).registry, name@, now),
            !created ==> final(self).registry == old(self).registry,
            extends(final(self).registry.entries(), old(self).registry.entries()),
    {
        PVAccessServer::create_channel(self, name, now)
    }

    /// Removes the channel of that name, if there is one: the other
    /// channels keep their order, and the count of changes goes up.
    fn delete_channel(&mut self, name: &str) -> (deleted: bool)
        ensures
            final(self).guid == old(self).guid,
            final(self).server_ip == old(self).server_ip,
            final(self).server_port == old(self).server_port,
            deleted == has_name(old(self).registry.entries(), name@),
            !has_name(final(self).registry.entries(), name@),
            deleted ==> removed(old(self).registry, final(self).registry, name@),
            !deleted ==> final(self).registry == old(self).registry,
    {
        PVAccessServer::delete_channel(self, name)
    }

    /// The names of the channels in the order in which they were created.
    fn list_channels(&self) -> (names: Vec<String>)
        ensures
            names@.len() == self.registry.entries().len(),
            forall|i: int|
                0 <= i < names@.len() ==> (#[trigger] names@[i])@
                    == self.registry.entries()[i].state.name@,
    {
        PVAccessServer::list_channels(self)
    }

    /// Puts a payload at the end of the history of the channel of that name
    /// at the time `now`; where the history was full, its oldest payload is
    /// dropped. Nothing changes where there is no such channel.
    fn channel_put(&mut self, channel_name: &str, message: Vec<u8>, now: u64) -> (put: bool)
        ensures
            final(self).guid == old(self).guid,
            final(self).server_ip == old(self).server_ip,
            final(self).server_port == old(self).server_port,
            put == has_name(old(self).registry.entries(), channel_name@),
            !put ==> final(self).registry == old(self).registry,
            put ==> exists|i: int|
                0 <= i < old(self).registry.entries().len() && (#[trigger] old(self).registry.entries()[i]).state.name@ == channel_name@ && final(self).registry.only_changed(old(self).registry, i) && final(self).registry.entries()[i].state.messages@ == history_after(
                    old(self).registry.entries()[i].state.messages@,
                    old(self).registry.entries()[i].state.capacity as nat,
                    (now, message),
                ) && final(self).registry.entries()[i].state.last_updated == now,
    {
        PVAccessServer::channel_put(self, channel_name, message, now)
    }

    /// The oldest payloads of the channel of that name, oldest first: at most
    /// `limit` of them, and none where there is no such channel.
    fn channel_get(&self, channel_name: &str, limit: usize) -> (r: Vec<Vec<u8>>)
        ensures
            !has_name(self.registry.entries(), channel_name@) ==> r@.len() == 0,
            has_name(self.registry.entries(), channel_name@) ==> exists|i: int|
                0 <= i < self.registry.entries().len() && (
                #[trigger] self.registry.entries()[i]).state.name@ == channel_name@ && oldest(
                    self.registry.entries()[i].state.messages@,
                    limit as nat,
                    r@,
                ),
    {
        PVAccessServer::channel_get(self, channel_name, limit)
    }
}

/// The handlers of the commands that every server answers itself.
pub trait CorePvAccessHandler {
    /// The response to an echo request.
    fn handle_echo(&self, msg: &EchoMessage) -> EchoResponse;

    /// The response to a search.
    fn handle_search_request(&self, msg: &SearchRequest) -> SearchResponse;
}

impl CorePvAccessHandler for PVAccessServer {
    /// The response to an echo request: the same payload.
    fn handle_echo(&self, msg: &EchoMessage) -> (response: EchoResponse)
        ensures
            response@ == msg@,
    {
        PVAccessServer::handle_echo(self, msg)
    }

    /// The response to a search: the instance numbers of the channels that
    /// are asked for and that the server has, in the order of the request,
    /// under the sequence number of the request and with the identifier,
    /// the address and the port of the server.
    fn handle_search_request(&self, msg: &SearchRequest) -> (response: SearchResponse)
        ensures
            response.guid == self.guid,
            response.search_sequence_id == msg.search_sequence_id,
            response.server_address@ == ipv4_mapped(self.server_ip@),
            response.server_port == self.server_port,
            response.protocol@ == "tcp"@,
            response.search_instance_ids@ == found_ids(msg@.channels, self.registry.entries()),
            response.found == (response.search_instance_ids@.len() > 0),
    {
        PVAccessServer::handle_search_request(self, msg)
    }
}

/// The handlers of the commands that create and destroy channels.
pub trait ChannelHandler {
    /// Whether the handler is in a state in which it can be used.
    spec fn prepared(&self) -> bool;

    /// The responses to a request to create channels, one for each channel.
    fn handle_create(&mut self, msg: &CreateChannelRequest, now: u64) -> (responses: Vec<
        CreateChannelResponse,
    >)
        requires
            old(self).prepared(),
        ensures
            final(self).prepared(),
    ;

    /// The response to a request to destroy a channel.
    fn handle_destroy(&mut self, msg: &DestroyChannelRequest) -> (response: DestroyChannelResponse)
        requires
            old(self).prepared(),
        ensures
            final(self).prepared(),
    ;
}

impl ChannelHandler for PVAccessServer {
    open spec fn prepared(&self) -> bool {
        self.wf()
    }

    /// Resolves or creates the channels of a request at the time `now`.
    /// There is one response for each channel of the request, in the order
    /// of the request: with the number of the channel where it is there
    /// afterwards, with an error and the number zero where no number was
    /// left for it. The channels that were there stay as they are; after
    /// them stand the channels that were created, each for a channel of the
    /// request, and the count of changes has gone up by one for each.
    fn handle_create(&mut self, msg: &CreateChannelRequest, now: u64) -> (responses: Vec<
        CreateChannelResponse,
    >)
        ensures
            final(self).guid == old(self).guid,
            final(self).server_ip == old(self).server_ip,
            final(self).server_port == old(self).server_port,
            extends(final(self).registry.entries(), old(self).registry.entries()),
            grown(
                old(self).registry,
                final(self).registry,
                msg.channels@,
                msg.channels@.len() as int,
                now,
            ),
            final(self).registry.next_id() < u32::MAX ==> forall|k: int|
                0 <= k < msg.channels@.len() ==> has_name(
                    final(self).registry.entries(),
                    (#[trigger] msg.channels@[k]).channel_name@,
                ),
            responses@.len() == msg.channels@.len(),
            forall|i: int|
                0 <= i < responses@.len() ==> answers(
                    #[trigger] responses@[i],
                    msg.channels@[i].client_channel_id,
                    msg.channels@[i].channel_name@,
                    final(self).registry.entries(),
                ),
    {
        PVAccessServer::handle_create(self, msg, now)
    }

    /// Destroys the channel that a request names by the number that the
    /// server gave it; the other channels keep their order, and the count
    /// of changes goes up. Where there is no such channel, nothing changes.
    /// The response repeats the two numbers of the request.
    fn handle_destroy(&mut self, msg: &DestroyChannelRequest) -> (response:
        DestroyChannelResponse)
        ensures
            final(self).guid == old(self).guid,
            final(self).server_ip == old(self).server_ip,
            final(self).server_port == old(self).server_port,
            !has_id(final(self).registry.entries(), msg.server_channel_id),
            !has_id(old(self).registry.entries(), msg.server_channel_id) ==> final(self).registry
                == old(self).registry,
            has_id(old(self).registry.entries(), msg.server_channel_id) ==> final(self).registry.changes() == bumped(old(self).registry.changes()) && exists|i: int|
                0 <= i < old(self).registry.entries().len() && (#[trigger] old(self).registry.entries()[i]).id == msg.server_channel_id && final(self).registry.entries() == old(self).registry.entries().remove(i),
            response.client_channel_id == msg.client_channel_id,
            response.server_channel_id == msg.server_channel_id,
    {
        PVAccessServer::handle_destroy(self, msg)
    }
}

/// The handlers of the administrative commands: each takes the body of a
/// frame and says what it holds.
pub trait AdminHandler {
    /// The request to destroy a request that a body holds.
    fn handle_destroy_request(&self, bytes: &[u8], is_big_endian: bool) -> Result<
        DestroyRequest,
        DecodeError,
    >;

    /// The response to the initialisation of a process that a body holds.
    fn handle_channel_process(&self, bytes: &[u8], is_big_endian: bool) -> Result<
        ChannelProceesResponseInit,
        DecodeError,
    >;

    /// The request for the type of a field that a body holds.
    fn handle_get_introspection_data(&self, bytes: &[u8], is_big_endian: bool) -> Result<
        ChannelGetFieldRequest,
        DecodeError,
    >;

    /// The message that a body holds.
    fn handle_message(&self, bytes: &[u8], is_big_endian: bool) -> Result<PvMessage, DecodeError>;
}

impl AdminHandler for PVAccessServer {
    /// The request to destroy a request that the eight bytes of a body
    /// hold: the number of the channel, then the number of the request.
    fn handle_destroy_request(&self, bytes: &[u8], is_big_endian: bool) -> (r: Result<
        DestroyRequest,
        DecodeError,
    >)
        ensures
            match r {
                Ok(m) => parse_u32_pair(bytes@, is_big_endian) == Ok::<(u32, u32), DecodeError>(
                    (m.server_channel_id, m.request_id),
                ),
                Err(e) => parse_u32_pair(bytes@, is_big_endian) == Err::<(u32, u32), DecodeError>(
                    e,
                ),
            },
    {
        DestroyRequest::from_bytes(bytes, is_big_endian)
    }

    /// The response to the initialisation of a process that a body holds.
    fn handle_channel_process(&self, bytes: &[u8], is_big_endian: bool) -> (r: Result<
        ChannelProceesResponseInit,
        DecodeError,
    >)
        ensures
            decoded(r, parse_status_response(bytes@, is_big_endian)),
    {
        ChannelProceesResponseInit::from_bytes(bytes, is_big_endian)
    }

    /// The request for the type of a field that a body holds.
    fn handle_get_introspection_data(&self, bytes: &[u8], is_big_endian: bool) -> (r: Result<
        ChannelGetFieldRequest,
        DecodeError,
    >)
        ensures
            decoded(r, parse_get_field(bytes@, is_big_endian)),
    {
        ChannelGetFieldRequest::from_bytes(bytes, is_big_endian)
    }

    /// The message that a body holds.
    fn handle_message(&self, bytes: &[u8], is_big_endian: bool) -> (r: Result<
        PvMessage,
        DecodeError,
    >)
        ensures
            decoded(r, parse_message(bytes@, is_big_endian)),
    {
        PvMessage::from_bytes(bytes, is_big_endian)
    }
}

} // verus!
