//! A server: its identity, its registry of channels, and the handlers that
//! the session engine routes commands to.

use crate::error::{DecodeError, FrameError};
use crate::fielddesc::FieldDesc;
use crate::frame::{frame_message, reassemble, PvAccessFrame, Reassembler};
use crate::header::{Command, PvAccessHeader};
use crate::messages::beacon::{BeaconMessage, BeaconModel};
use crate::messages::channel::{
    parse_create, CreateChannelRequest, CreateChannelResponse, DestroyChannelRequest,
    DestroyChannelResponse,
};
use crate::messages::into::ToBytes;
use crate::session::server_step;
use crate::session::OutputModel;
use crate::wire::parse_u32_pair;
use crate::messages::echo::{EchoMessage, EchoResponse};
use crate::messages::search::{SearchRequest, SearchResponse};
use crate::messages::status::{ResponseCompletionStatus, ResponseCompletionStatusEnum};
use crate::registry::{bumped, has_id, has_name, oldest, ChannelEntry, ChannelRegistry};
use crate::session::{
    flags_for_reply, reply_flags, CloseReason, Handler, ServerSession, SessionOutput, SessionState,
};
use crate::wire::ipv4_mapped;
use vstd::prelude::*;

verus! {

/// The capacity of the history of a channel that a client creates.
pub const DEFAULT_HISTORY: usize = 100;

/// The instance numbers of the channels that are asked for and that are
/// among the entries, in the order in which they are asked for.
pub open spec fn found_ids(asked: Seq<(u32, Seq<char>)>, entries: Seq<ChannelEntry>) -> Seq<u32>
    decreases asked.len(),
{
    if asked.len() == 0 {
        Seq::<u32>::empty()
    } else {
        let before = found_ids(asked.drop_last(), entries);
        if has_name(entries, asked.last().1) {
            before.push(asked.last().0)
        } else {
            before
        }
    }
}

/// Whether the entries `now` are the entries `before` with more entries
/// after them.
pub open spec fn extends(now: Seq<ChannelEntry>, before: Seq<ChannelEntry>) -> bool {
    now.len() >= before.len() && now.take(before.len() as int) == before
}

/// Whether a response says that the channel of a request is among the
/// entries under the number that the response gives, or that no number was
/// left for it.
pub open spec fn answers(
    response: CreateChannelResponse,
    client_channel_id: u32,
    name: Seq<char>,
    entries: Seq<ChannelEntry>,
) -> bool {
    &&& response.client_channel_id == client_channel_id
    &&& response.status.call_tree is None
    &&& response@.status.encodable()
    &&& if has_name(entries, name) {
        &&& response.status.response_type == ResponseCompletionStatusEnum::Success
        &&& exists|j: int|
            0 <= j < entries.len() && (#[trigger] entries[j]).id == response.server_channel_id
                && entries[j].state.name@ == name
    } else {
        &&& response.status.response_type == ResponseCompletionStatusEnum::Error
        &&& response.server_channel_id == 0
    }
}

/// Whether the registry `after` is the registry `before` with one more
/// channel at its end: a channel of that name with the next number, the
/// schema of a variant union, an empty history of the default capacity and
/// no subscriber, created at the time `now`. The count of changes has gone
/// up.
pub open spec fn appended(
    before: ChannelRegistry,
    after: ChannelRegistry,
    name: Seq<char>,
    now: u64,
) -> bool {
    &&& after.entries().len() == before.entries().len() + 1
    &&& after.entries().take(before.entries().len() as int) == before.entries()
    &&& after.next_id() == before.next_id() + 1
    &&& after.changes() == bumped(before.changes())
    &&& after.entries().last().id == before.next_id()
    &&& after.entries().last().state.name@ == name
    &&& after.entries().last().state.schema == FieldDesc::VariantUnion
    &&& after.entries().last().state.messages@.len() == 0
    &&& after.entries().last().state.subscribers@.len() == 0
    &&& after.entries().last().state.capacity == DEFAULT_HISTORY
    &&& after.entries().last().state.last_updated == now
}

/// Whether the registry `after` is the registry `before` without its
/// channel of that name: the other channels keep their order, and the count
/// of changes has gone up.
pub open spec fn removed(before: ChannelRegistry, after: ChannelRegistry, name: Seq<char>) -> bool {
    &&& after.next_id() == before.next_id()
    &&& after.changes() == bumped(before.changes())
    &&& exists|i: int|
        0 <= i < before.entries().len() && (#[trigger] before.entries()[i]).state.name@ == name
            && after.entries() == before.entries().remove(i)
}

/// Whether the channel is one that was just created for one of the first
/// `upto` channels of a request at the time `now`: it has the name of that
/// channel, the schema of a variant union, an empty history of the default
/// capacity and no subscriber.
pub open spec fn made_for(
    entry: ChannelEntry,
    asked: Seq<crate::messages::channel::ChannelInit>,
    upto: int,
    now: u64,
) -> bool {
    exists|k: int|
        0 <= k < upto && k < asked.len() && (#[trigger] asked[k]).channel_name@
            == entry.state.name@ && entry.state.schema == FieldDesc::VariantUnion
            && entry.state.messages@.len() == 0 && entry.state.subscribers@.len() == 0
            && entry.state.capacity == DEFAULT_HISTORY && entry.state.last_updated == now
}

/// Whether the registry `after` is the registry `before` with the channels
/// after it that were created for the first `upto` channels of a request:
/// the numbers were given out in turn and the count of changes went up by
/// one for each new channel.
pub open spec fn grown(
    before: ChannelRegistry,
    after: ChannelRegistry,
    asked: Seq<crate::messages::channel::ChannelInit>,
    upto: int,
    now: u64,
) -> bool {
    &&& extends(after.entries(), before.entries())
    &&& after.next_id() == before.next_id() + (after.entries().len() - before.entries().len())
    &&& after.changes() == bumped_by(
        before.changes(),
        (after.entries().len() - before.entries().len()) as nat,
    )
    &&& forall|j: int|
        before.entries().len() <= j < after.entries().len() ==> made_for(
            #[trigger] after.entries()[j],
            asked,
            upto,
            now,
        )
}

/// The count of changes after `n` more changes: it wraps around.
pub open spec fn bumped_by(count: u16, n: nat) -> u16 {
    ((count + n) % 0x1_0000) as u16
}

/// A server.
#[derive(Debug)]
pub struct PVAccessServer {
    /// The identifier that the server drew when it started.
    pub guid: [u8; 12],
    /// The IPv4 address that the server announces.
    pub server_ip: [u8; 4],
    /// The TCP port that the server listens on.
    pub server_port: u16,
    /// The channels.
    pub registry: ChannelRegistry,
}

impl PVAccessServer {
    /// The registry is well formed.
    pub open spec fn wf(self) -> bool {
        self.registry.wf()
    }

    /// What the first beacon of the server says.
    pub open spec fn announcement(self) -> BeaconModel {
        BeaconModel {
            guid: self.guid@,
            flags: 0,
            beacon_sequence_id: 0,
            change_count: self.registry.changes(),
            server_address: ipv4_mapped(self.server_ip@),
            server_port: self.server_port,
            protocol: "tcp"@,
            server_status_if: 0,
        }
    }

    /// A server without channels.
    pub fn new(guid: [u8; 12], server_ip: [u8; 4], server_port: u16) -> (s: PVAccessServer)
        ensures
            s.wf(),
            s.guid == guid,
            s.server_ip == server_ip,
            s.server_port == server_port,
            s.registry.entries().len() == 0,
            s.registry.next_id() == 0,
            s.registry.changes() == 0,
    {
        PVAccessServer { guid, server_ip, server_port, registry: ChannelRegistry::new() }
    }

    /// The beacon of the server with the given sequence number: its
    /// identifier, its address in the mapped form, its port, the protocol
    /// `tcp` and the count of changes of the registry.
    pub fn beacon(&self, sequence_id: u8) -> (b: BeaconMessage)
        ensures
            b.guid == self.guid,
            b.flags == 0,
            b.beacon_sequence_id == sequence_id,
            b.change_count == self.registry.changes(),
            b.server_address@ == ipv4_mapped(self.server_ip@),
            b.server_port == self.server_port,
            b.protocol@ == "tcp"@,
            b.server_status_if == 0,
    {
        BeaconMessage {
            guid: self.guid,
            flags: 0,
            beacon_sequence_id: sequence_id,
            change_count: self.registry.change_count(),
            server_address: crate::wire::map_ipv4(self.server_ip),
            server_port: self.server_port,
            protocol: "tcp".to_string(),
            server_status_if: 0,
        }
    }

    /// The header at the start of `data`.
    pub fn parse_header(&self, data: &[u8]) -> (r: Result<PvAccessHeader, FrameError>)
        ensures
            r == crate::header::parse_header(data@),
    {
        PvAccessHeader::from_bytes(data)
    }

    /// Creates a channel of that name unless there is one. Says whether one
    /// was created.
    pub fn create_channel(&mut self, name: &str, now: u64) -> (r: bool)
        requires
            old(self).wf(),
        ensures
            final(self).wf(),
            final(self).guid == old(self).guid,
            final(self).server_ip == old(self).server_ip,
            final(self).server_port == old(self).server_port,
            r == (!has_name(old(self).registry.entries(), name@) && old(self).registry.next_id()
                < u32::MAX),
            r ==> has_name(final(self).registry.entries(), name@),
            r ==> appended(old(self).registry, final(self).registry, name@, now),
            !r ==> final(self).registry == old(self).registry,
            extends(final(self).registry.entries(), old(self).registry.entries()),
    {
        let ghost before = self.registry.entries();
        if self.registry.lookup(name).is_some() {
            assert(before.take(before.len() as int) =~= before);
            return false;
        }
        match self.registry.get_or_create(name, DEFAULT_HISTORY, now) {
            Some(_) => {
                assert(self.registry.entries().last().state.name@ == name@);
                true
            },
            None => {
                assert(before.take(before.len() as int) =~= before);
                false
            },
        }
    }

    /// Removes the channel of that name. Says whether there was one.
    pub fn delete_channel(&mut self, name: &str) -> (r: bool)
        requires
            old(self).wf(),
        ensures
            final(self).wf(),
            final(self).guid == old(self).guid,
            final(self).server_ip == old(self).server_ip,
            final(self).server_port == old(self).server_port,
            r == has_name(old(self).registry.entries(), name@),
            !has_name(final(self).registry.entries(), name@),
            r ==> removed(old(self).registry, final(self).registry, name@),
            !r ==> final(self).registry == old(self).registry,
    {
        self.registry.destroy(name)
    }

    /// The names of the channels in the order in which they were created.
    pub fn list_channels(&self) -> (names: Vec<String>)
        ensures
            names@.len() == self.registry.entries().len(),
            forall|i: int|
                0 <= i < names@.len() ==> (#[trigger] names@[i])@
                    == self.registry.entries()[i].state.name@,
    {
        self.registry.list()
    }

    /// Pushes a payload to the channel of that name at the time `now`: it is
    /// put at the end of the history, and where the history was full its
    /// oldest payload is dropped. Says whether there is such a channel.
    pub fn channel_put(&mut self, channel_name: &str, message: Vec<u8>, now: u64) -> (r: bool)
        requires
            old(self).wf(),
        ensures
            final(self).wf(),
            final(self).guid == old(self).guid,
            final(self).server_ip == old(self).server_ip,
            final(self).server_port == old(self).server_port,
            r == has_name(old(self).registry.entries(), channel_name@),
            !r ==> final(self).registry == old(self).registry,
            r ==> exists|i: int|
                0 <= i < old(self).registry.entries().len() && (#[trigger] old(self).registry.entries()[i]).state.name@ == channel_name@ && final(self).registry.only_changed(old(self).registry, i) && final(self).registry.entries()[i].state.messages@ == crate::channel::history_after(
                    old(self).registry.entries()[i].state.messages@,
                    old(self).registry.entries()[i].state.capacity as nat,
                    (now, message),
                ) && final(self).registry.entries()[i].state.last_updated == now,
    {
        match self.registry.lookup(channel_name) {
            Some(id) => {
                proof {
                    self.registry.lemma_one_id(id);
                }
                let pushed = self.registry.push(id, message, now);
                assert(pushed);
                true
            },
            None => false,
        }
    }

    /// The oldest payloads of the channel of that name, oldest first: at most
    /// `limit` of them, and none where there is no such channel.
    pub fn channel_get(&self, channel_name: &str, limit: usize) -> (r: Vec<Vec<u8>>)
        ensures
            !has_name(self.registry.entries(), channel_name@) ==> r@.len() == 0,
            has_name(self.registry.entries(), channel_name@) ==> exists|i: int|
                0 <= i < self.registry.entries().len() && (
                #[trigger] self.registry.entries()[i]).state.name@ == channel_name@ && oldest(
                    self.registry.entries()[i].state.messages@,
                    limit as nat,
                    r@,
                ),
    {
        match self.registry.position(channel_name) {
            Some(i) => self.registry.history_at(i, limit),
            None => Vec::new(),
        }
    }

    /// The body of the beacon by which the server announces itself first:
    /// big-endian, with the sequence number zero.
    pub fn discover_message(&self) -> (out: Vec<u8>)
        ensures
            out@ == self.announcement().wire(true),
    {
        proof {
            crate::wire::lemma_tcp_is_short();
        }
        let beacon = self.beacon(0);
        match beacon.to_bytes(true) {
            Ok(v) => v,
            Err(_) => {
                assert(false);
                Vec::new()
            },
        }
    }

    /// The response to an echo request: the same payload.
    pub fn handle_echo(&self, msg: &EchoMessage) -> (response: EchoResponse)
        ensures
            response@ == msg@,
    {
        EchoResponse::answering(msg)
    }

    /// The response to a search: the instance numbers of the channels that
    /// are asked for and that the server has, in the order of the request,
    /// under the sequence number of the request.
    pub fn handle_search_request(&self, msg: &SearchRequest) -> (response: SearchResponse)
        ensures
            response.guid == self.guid,
            response.search_sequence_id == msg.search_sequence_id,
            response.server_address@ == ipv4_mapped(self.server_ip@),
            response.server_port == self.server_port,
            response.protocol@ == "tcp"@,
            response.search_instance_ids@ == found_ids(msg@.channels, self.registry.entries()),
            response.found == (response.search_instance_ids@.len() > 0),
    {
        let mut ids: Vec<u32> = Vec::new();
        let ghost asked = msg@.channels;
        let mut i: usize = 0;
        assert(asked.take(0) =~= Seq::<(u32, Seq<char>)>::empty());
        while i < msg.channels.len()
            invariant
                i <= msg.channels.len(),
                asked == msg.channels.deep_view(),
                ids@ == found_ids(asked.take(i as int), self.registry.entries()),
            decreases msg.channels.len() - i,
        {
            proof {
                assert(asked.take(i + 1).drop_last() =~= asked.take(i as int));
                assert(asked.take(i + 1).last() == asked[i as int]);
                assert(asked[i as int].1 == msg.channels@[i as int].1@);
            }
            if self.registry.lookup(msg.channels[i].1.as_str()).is_some() {
                ids.push(msg.channels[i].0);
            }
            i = i + 1;
        }
        assert(asked.take(msg.channels.len() as int) =~= asked);
        let found: bool = ids.len() > 0;
        SearchResponse {
            guid: self.guid,
            search_sequence_id: msg.search_sequence_id,
            server_address: crate::wire::map_ipv4(self.server_ip),
            server_port: self.server_port,
            protocol: "tcp".to_string(),
            found,
            search_instance_ids: ids,
        }
    }

    /// Resolves or creates the channels of a request at the time `now`.
    /// There is one response for each channel of the request, in the order of
    /// the request. A channel that is there afterwards is answered with the
    /// number that the server gave it; a channel for which no number was left
    /// is answered with an error and the number zero.
    pub fn handle_create(&mut self, msg: &CreateChannelRequest, now: u64) -> (responses: Vec<
        CreateChannelResponse,
    >)
        requires
            old(self).wf(),
        ensures
            final(self).wf(),
            final(self).guid == old(self).guid,
            final(self).server_ip == old(self).server_ip,
            final(self).server_port == old(self).server_port,
            extends(final(self).registry.entries(), old(self).registry.entries()),
            grown(
                old(self).registry,
                final(self).registry,
                msg.channels@,
                msg.channels@.len() as int,
                now,
            ),
            final(self).registry.next_id() < u32::MAX ==> forall|k: int|
                0 <= k < msg.channels@.len() ==> has_name(
                    final(self).registry.entries(),
                    (#[trigger] msg.channels@[k]).channel_name@,
                ),
            responses@.len() == msg.channels@.len(),
            forall|i: int|
                0 <= i < responses@.len() ==> answers(
                    #[trigger] responses@[i],
                    msg.channels@[i].client_channel_id,
                    msg.channels@[i].channel_name@,
                    final(self).registry.entries(),
                ),
    {
        let mut responses: Vec<CreateChannelResponse> = Vec::new();
        let ghost first = self.registry;
        let ghost start = self.registry.entries();
        let mut i: usize = 0;
        assert(start.take(start.len() as int) =~= start);
        while i < msg.channels.len()
            invariant
                i <= msg.channels.len(),
                self.wf(),
                self.guid == old(self).guid,
                self.server_ip == old(self).server_ip,
                self.server_port == old(self).server_port,
                start == old(self).registry.entries(),
                first == old(self).registry,
                extends(self.registry.entries(), start),
                grown(first, self.registry, msg.channels@, i as int, now),
                responses@.len() == i,
                forall|k: int|
                    0 <= k < i ==> answers(
                        #[trigger] responses@[k],
                        msg.channels@[k].client_channel_id,
                        msg.channels@[k].channel_name@,
                        self.registry.entries(),
                    ),
                self.registry.next_id() < u32::MAX ==> forall|k: int|
                    0 <= k < i ==> has_name(
                        self.registry.entries(),
                        (#[trigger] msg.channels@[k]).channel_name@,
                    ),
            decreases msg.channels.len() - i,
        {
            let ghost before = self.registry.entries();
            let ghost held = self.registry;
            let ghost so_far = responses@;
            let ghost had_room = self.registry.next_id() < u32::MAX;
            let client_channel_id: u32 = msg.channels[i].client_channel_id;
            let made = self.registry.get_or_create(
                msg.channels[i].channel_name.as_str(),
                DEFAULT_HISTORY,
                now,
            );
            let ghost after = self.registry.entries();
            proof {
                assert(before.take(before.len() as int) =~= before);
                lemma_extends_keeps(after, before, start);
            }
            let response = match made {
                Some(server_channel_id) => CreateChannelResponse {
                    client_channel_id,
                    server_channel_id,
                    status: ResponseCompletionStatus::ok(),
                },
                None => CreateChannelResponse {
                    client_channel_id,
                    server_channel_id: 0,
                    status: ResponseCompletionStatus::exhausted(),
                },
            };
            responses.push(response);
            proof {
                let name = msg.channels@[i as int].channel_name@;
                if made is Some {
                    lemma_named(after, before, name, made.unwrap());
                } else {
                    assert(after == before);
                }
                assert forall|k: int| 0 <= k < i implies answers(
                    #[trigger] responses@[k],
                    msg.channels@[k].client_channel_id,
                    msg.channels@[k].channel_name@,
                    after,
                ) by {
                    assert(responses@[k] == so_far[k]);
                    lemma_answers_kept(
                        so_far[k],
                        msg.channels@[k].client_channel_id,
                        msg.channels@[k].channel_name@,
                        before,
                        after,
                        had_room,
                    );
                }
                assert forall|k: int|
                    0 <= k < i + 1 && self.registry.next_id() < u32::MAX implies has_name(
                    after,
                    (#[trigger] msg.channels@[k]).channel_name@,
                ) by {
                    if k < i {
                        lemma_has_name_kept(before, after, msg.channels@[k].channel_name@);
                    }
                }
                lemma_grown_step(first, held, self.registry, msg.channels@, i as int, now);
            }
            i = i + 1;
        }
        responses
    }

    /// Destroys the channel that a request names by the number that the
    /// server gave it; the other channels keep their order, and the count
    /// of changes goes up. Where there is no such channel, nothing changes.
    /// The response repeats the two numbers of the request.
    pub fn handle_destroy(&mut self, msg: &DestroyChannelRequest) -> (response:
        DestroyChannelResponse)
        requires
            old(self).wf(),
        ensures
            final(self).wf(),
            final(self).guid == old(self).guid,
            final(self).server_ip == old(self).server_ip,
            final(self).server_port == old(self).server_port,
            !has_id(final(self).registry.entries(), msg.server_channel_id),
            !has_id(old(self).registry.entries(), msg.server_channel_id) ==> final(self).registry
                == old(self).registry,
            has_id(old(self).registry.entries(), msg.server_channel_id) ==> final(self).registry.changes() == crate::registry::bumped(old(self).registry.changes())
                && exists|i: int|
                0 <= i < old(self).registry.entries().len() && (#[trigger] old(self).registry.entries()[i]).id == msg.server_channel_id && final(self).registry.entries() == old(self).registry.entries().remove(i),
            response.client_channel_id == msg.client_channel_id,
            response.server_channel_id == msg.server_channel_id,
    {
        let _ = self.registry.destroy_id(msg.server_channel_id);
        DestroyChannelResponse::answering(msg)
    }
}

/// A registry that has grown for the first `upto` channels of a request
/// and then stays as it is, or gets a channel for the next one, has grown
/// for one channel more.
proof fn lemma_grown_step(
    first: ChannelRegistry,
    held: ChannelRegistry,
    after: ChannelRegistry,
    asked: Seq<crate::messages::channel::ChannelInit>,
    upto: int,
    now: u64,
)
    requires
        0 <= upto < asked.len(),
        grown(first, held, asked, upto, now),
        extends(after.entries(), first.entries()),
        after == held || ({
            &&& after.entries().len() == held.entries().len() + 1
            &&& after.entries().take(held.entries().len() as int) == held.entries()
            &&& after.next_id() == held.next_id() + 1
            &&& after.changes() == bumped(held.changes())
            &&& after.entries().last().state.name@ == asked[upto].channel_name@
            &&& after.entries().last().state.schema == FieldDesc::VariantUnion
            &&& after.entries().last().state.messages@.len() == 0
            &&& after.entries().last().state.subscribers@.len() == 0
            &&& after.entries().last().state.capacity == DEFAULT_HISTORY
            &&& after.entries().last().state.last_updated == now
        }),
    ensures
        grown(first, after, asked, upto + 1, now),
{
    assert forall|j: int| first.entries().len() <= j < after.entries().len() implies made_for(
        #[trigger] after.entries()[j],
        asked,
        upto + 1,
        now,
    ) by {
        if j < held.entries().len() {
            if after != held {
                assert(after.entries().take(held.entries().len() as int)[j] == held.entries()[j]);
            }
            assert(made_for(held.entries()[j], asked, upto, now));
            let k = choose|k: int|
                0 <= k < upto && k < asked.len() && (#[trigger] asked[k]).channel_name@
                    == held.entries()[j].state.name@;
            assert(asked[k].channel_name@ == after.entries()[j].state.name@);
        } else {
            assert(after.entries()[j] == after.entries().last());
            assert(asked[upto].channel_name@ == after.entries()[j].state.name@);
        }
    }
}

/// Entries that extend entries that extend others extend those too.
pub proof fn lemma_extends_keeps(
    after: Seq<ChannelEntry>,
    before: Seq<ChannelEntry>,
    start: Seq<ChannelEntry>,
)
    requires
        extends(before, start),
        extends(after, before),
    ensures
        extends(after, start),
{
    assert(after.take(start.len() as int) =~= start) by {
        assert forall|k: int| 0 <= k < start.len() implies after[k] == start[k] by {
            assert(after.take(before.len() as int)[k] == before[k]);
            assert(before.take(start.len() as int)[k] == start[k]);
        }
    }
}

/// A name that is among the entries is among the entries that extend them.
pub proof fn lemma_has_name_kept(
    before: Seq<ChannelEntry>,
    after: Seq<ChannelEntry>,
    name: Seq<char>,
)
    requires
        extends(after, before),
        has_name(before, name),
    ensures
        has_name(after, name),
{
    let j = choose|j: int| 0 <= j < before.len() && (#[trigger] before[j]).state.name@ == name;
    assert(after.take(before.len() as int)[j] == before[j]);
    assert(after[j].state.name@ == name);
}

proof fn lemma_named(
    after: Seq<ChannelEntry>,
    before: Seq<ChannelEntry>,
    name: Seq<char>,
    id: u32,
)
    requires
        extends(after, before),
        has_name(before, name) ==> after == before && exists|j: int|
            0 <= j < before.len() && (#[trigger] before[j]).id == id && before[j].state.name@
                == name,
        !has_name(before, name) ==> after.len() == before.len() + 1 && after.last().id == id
            && after.last().state.name@ == name,
    ensures
        has_name(after, name),
        exists|j: int|
            0 <= j < after.len() && (#[trigger] after[j]).id == id && after[j].state.name@ == name,
{
    if !has_name(before, name) {
        assert(after[after.len() - 1].state.name@ == name);
    }
}

proof fn lemma_answers_kept(
    response: CreateChannelResponse,
    client_channel_id: u32,
    name: Seq<char>,
    before: Seq<ChannelEntry>,
    after: Seq<ChannelEntry>,
    had_room: bool,
)
    requires
        extends(after, before),
        answers(response, client_channel_id, name, before),
        had_room ==> has_name(before, name),
        !had_room ==> after == before,
    ensures
        answers(response, client_channel_id, name, after),
{
    if has_name(before, name) {
        lemma_has_name_kept(before, after, name);
        let j = choose|j: int|
            0 <= j < before.len() && (#[trigger] before[j]).id == response.server_channel_id
                && before[j].state.name@ == name;
        assert(after.take(before.len() as int)[j] == before[j]);
        assert(after[j].id == response.server_channel_id && after[j].state.name@ == name);
    }
}

/// What the server does with one frame of a session.
#[derive(Debug)]
pub struct Dispatched {
    /// The frames to be sent to the peer, in this order.
    pub frames: Vec<PvAccessFrame>,
    /// The handler that the frame is for, where the server has none of its
    /// own for the command.
    pub routed: Option<Handler>,
    /// The body of the message for that handler; empty where there is none.
    pub body: Vec<u8>,
    /// Why the connection is to be closed, if it is.
    pub close: Option<CloseReason>,
}

/// Whether the frame carries a response of the server to a request that
/// came with the flags `incoming`: a frame of the protocol's version, from
/// the server, in the byte order of the request.
pub open spec fn is_response(
    frame: PvAccessFrame,
    command: Command,
    incoming: crate::flags::PvHeaderFlags,
) -> bool {
    &&& frame.wf()
    &&& frame.header.version == crate::header::PROTOCOL_VERSION
    &&& frame.header.message_command == command
    &&& frame.header.flags.raw() == reply_flags(incoming, true)
    &&& frame.header.flags.big_endian() == incoming.big_endian()
}

impl PVAccessServer {
    fn frame_of<T: ToBytes>(body: &T, command: Command, incoming: &PvAccessHeader) -> (r: Option<
        PvAccessFrame,
    >)
        ensures
            r is Some <==> body.encodable() && body.wire(incoming.flags.big_endian()).len()
                <= u32::MAX,
            r matches Some(frame) ==> is_response(frame, command, incoming.flags) && frame.payload@
                == body.wire(incoming.flags.big_endian()),
    {
        let flags: u8 = flags_for_reply(&incoming.flags, true);
        proof {
            crate::flags::PvHeaderFlags::lemma_raw(flags & crate::flags::KNOWN_FLAG_BITS);
        }
        match frame_message(body, command, flags) {
            Ok(frame) => Some(frame),
            Err(_) => None,
        }
    }

    /// Takes one frame of a session at the time `now`: lets the session
    /// engine decide, and serves what is for the handlers of the server.
    ///
    /// What the engine answers itself is passed on: the reply to an echo,
    /// the close of the session. A request to create channels is answered
    /// with one frame for each channel of the request; a request to destroy
    /// a channel with one frame. A request that does not decode closes the
    /// session. Every other command that has a handler is passed on to it.
    pub fn dispatch(
        &mut self,
        session: &mut ServerSession,
        header: &PvAccessHeader,
        body: &[u8],
        now: u64,
    ) -> (out: Dispatched)
        requires
            old(self).wf(),
            old(session).wf(),
        ensures
            final(self).wf(),
            final(session).wf(),
            final(self).guid == old(self).guid,
            final(self).server_ip == old(self).server_ip,
            final(self).server_port == old(self).server_port,
            served(
                old(self).registry,
                old(session).state_of(),
                *header,
                body@,
                final(self).registry,
                final(session).state_of(),
                out,
            ),
    {
        let ghost start = self.registry.entries();
        proof {
            assert(start.take(start.len() as int) =~= start);
        }
        let big: bool = header.is_big_endian();
        let decided = session.on_frame(header, body);
        match decided {
            SessionOutput::Idle => Dispatched { frames: Vec::new(), routed: None, body: Vec::new(), close: None },
            SessionOutput::Reply(frame) => {
                let mut frames: Vec<PvAccessFrame> = Vec::new();
                frames.push(frame);
                Dispatched { frames, routed: None, body: Vec::new(), close: None }
            },
            SessionOutput::Close(reason) => Dispatched {
                frames: Vec::new(),
                routed: None,
                body: Vec::new(),
                close: Some(reason),
            },
            SessionOutput::Dispatch(Handler::CreateChannel) => {
                let request = match CreateChannelRequest::from_bytes(body, big) {
                    Ok(m) => m,
                    Err(e) => {
                        session.close();
                        return Dispatched {
                            frames: Vec::new(),
                            routed: None,
                            body: Vec::new(),
                            close: Some(CloseReason::Decode(e)),
                        };
                    },
                };
                let responses = self.handle_create(&request, now);
                let ghost channels = request@;
                let mut frames: Vec<PvAccessFrame> = Vec::new();
                let mut i: usize = 0;
                while i < responses.len()
                    invariant
                        i <= responses.len(),
                        responses@.len() == request.channels@.len(),
                        channels == request@,
                        channels.len() == request.channels@.len(),
                        frames@.len() == i,
                        forall|k: int|
                            0 <= k < responses@.len() ==> answers(
                                #[trigger] responses@[k],
                                request.channels@[k].client_channel_id,
                                request.channels@[k].channel_name@,
                                self.registry.entries(),
                            ),
                        forall|k: int|
                            0 <= k < i ==> is_response(
                                #[trigger] frames@[k],
                                Command::CreateChannel,
                                header.flags,
                            ) && created(
                                frames@[k].payload@,
                                header.flags.big_endian(),
                                channels[k],
                                self.registry.entries(),
                            ),
                    decreases responses.len() - i,
                {
                    proof {
                        let r = responses@[i as int];
                        assert(answers(
                            r,
                            request.channels@[i as int].client_channel_id,
                            request.channels@[i as int].channel_name@,
                            self.registry.entries(),
                        ));
                        crate::messages::channel::lemma_create_response_roundtrip(
                            r@,
                            header.flags.big_endian(),
                        );
                        crate::messages::status::lemma_status_length(r@.status);
                    }
                    match PVAccessServer::frame_of(&responses[i], Command::CreateChannel, header) {
                        Some(frame) => {
                            frames.push(frame);
                        },
                        None => {
                            assert(false);
                        },
                    }
                    i = i + 1;
                }
                Dispatched { frames, routed: None, body: Vec::new(), close: None }
            },
            SessionOutput::Dispatch(Handler::DestroyChannel) => {
                let request = match DestroyChannelRequest::from_bytes(body, big) {
                    Ok(m) => m,
                    Err(e) => {
                        session.close();
                        return Dispatched {
                            frames: Vec::new(),
                            routed: None,
                            body: Vec::new(),
                            close: Some(CloseReason::Decode(e)),
                        };
                    },
                };
                let response = self.handle_destroy(&request);
                let mut frames: Vec<PvAccessFrame> = Vec::new();
                proof {
                    crate::wire::lemma_u32_pair_bytes(body@, header.flags.big_endian());
                }
                match PVAccessServer::frame_of(&response, Command::DestroyChannel, header) {
                    Some(frame) => {
                        frames.push(frame);
                    },
                    None => {
                        assert(false);
                    },
                }
                Dispatched { frames, routed: None, body: Vec::new(), close: None }
            },
            SessionOutput::Dispatch(h) => Dispatched {
                frames: Vec::new(),
                routed: Some(h),
                body: vstd::slice::slice_to_vec(body),
                close: None,
            },
        }
    }
}

impl PVAccessServer {
    /// Takes one frame of a session that may be a segment of a message.
    ///
    /// Segments are put together first. A frame that completes a message,
    /// or is one, is served as `dispatch` serves it, with its own header and
    /// the body of the whole message. A segment that does not complete a
    /// message is held and nothing is sent. A frame that is out of turn
    /// closes the session with `SegmentationViolation`.
    pub fn receive(
        &mut self,
        session: &mut ServerSession,
        segments: &mut Reassembler,
        header: &PvAccessHeader,
        body: Vec<u8>,
        now: u64,
    ) -> (out: Dispatched)
        requires
            old(self).wf(),
            old(session).wf(),
        ensures
            final(self).wf(),
            final(session).wf(),
            final(self).guid == old(self).guid,
            final(self).server_ip == old(self).server_ip,
            final(self).server_port == old(self).server_port,
            match reassemble(
                old(segments).pending(),
                header.flags.segment(),
                header.message_command,
                body@,
            ) {
                Err(e) => {
                    &&& final(segments).pending() is None
                    &&& out.frames@.len() == 0
                    &&& out.body@.len() == 0
                    &&& out.routed is None
                    &&& out.close == Some(CloseReason::Protocol(e))
                    &&& final(session).state_of() == SessionState::Closed
                    &&& final(self).registry == old(self).registry
                },
                Ok((held, None)) => {
                    &&& final(segments).pending() == held
                    &&& out.frames@.len() == 0
                    &&& out.body@.len() == 0
                    &&& out.routed is None
                    &&& out.close is None
                    &&& *final(session) == *old(session)
                    &&& final(self).registry == old(self).registry
                },
                Ok((held, Some((command, whole)))) => {
                    &&& final(segments).pending() == held
                    &&& command == header.message_command
                    &&& served(
                        old(self).registry,
                        old(session).state_of(),
                        *header,
                        whole,
                        final(self).registry,
                        final(session).state_of(),
                        out,
                    )
                },
            },
    {
        match segments.push(header, body) {
            Err(e) => {
                session.close();
                Dispatched {
                    frames: Vec::new(),
                    routed: None,
                    body: Vec::new(),
                    close: Some(CloseReason::Protocol(e)),
                }
            },
            Ok(None) => Dispatched { frames: Vec::new(), routed: None, body: Vec::new(), close: None },
            Ok(Some((_, whole))) => self.dispatch(session, header, whole.as_slice(), now),
        }
    }
}

/// Whether `out`, the registry `after` and the state `next` are what the
/// server makes of a frame that arrives on a session in the state `state`
/// while the registry is `before`.
///
/// What the engine answers itself is passed on: nothing, the reply to an
/// echo, the close of the session; the registry stays as it is. A request
/// to create channels is answered with one frame for each channel of the
/// request, in the order of the request, and the registry is extended. A
/// request to destroy a channel is answered with a frame that repeats its
/// body, and the channel is removed. A request that does not decode closes
/// the session. Every other command that has a handler is passed on to it.
pub open spec fn served(
    before: ChannelRegistry,
    state: SessionState,
    header: PvAccessHeader,
    body: Seq<u8>,
    after: ChannelRegistry,
    next: SessionState,
    out: Dispatched,
) -> bool {
    let big = header.flags.big_endian();
    &&& out.routed is None ==> out.body@.len() == 0
    &&& match server_step(state, header, body).1 {
        OutputModel::Idle => {
            &&& out.frames@.len() == 0
            &&& out.routed is None
            &&& out.close is None
            &&& after == before
            &&& next == server_step(state, header, body).0
        },
        OutputModel::Reply { flags, command, payload } => {
            &&& out.frames@.len() == 1
            &&& out.frames@[0].wf()
            &&& out.frames@[0].header.version == crate::header::PROTOCOL_VERSION
            &&& out.frames@[0].header.flags.raw() == flags
            &&& out.frames@[0].header.message_command == command
            &&& out.frames@[0].payload@ == payload
            &&& out.routed is None
            &&& out.close is None
            &&& after == before
            &&& next == SessionState::Active
        },
        OutputModel::Close(reason) => {
            &&& out.frames@.len() == 0
            &&& out.routed is None
            &&& out.close == Some(reason)
            &&& after == before
            &&& next == SessionState::Closed
        },
        OutputModel::Dispatch(Handler::CreateChannel) => match parse_create(body, big) {
            Err(e) => refused(before, after, next, out, e),
            Ok(channels) => {
                &&& out.close is None
                &&& out.routed is None
                &&& next == SessionState::Active
                &&& extends(after.entries(), before.entries())
                &&& out.frames@.len() == channels.len()
                &&& forall|i: int|
                    0 <= i < channels.len() ==> is_response(
                        #[trigger] out.frames@[i],
                        Command::CreateChannel,
                        header.flags,
                    ) && created(out.frames@[i].payload@, big, channels[i], after.entries())
            },
        },
        OutputModel::Dispatch(Handler::DestroyChannel) => match parse_u32_pair(body, big) {
            Err(e) => refused(before, after, next, out, e),
            Ok((client_id, server_id)) => {
                &&& out.close is None
                &&& out.routed is None
                &&& next == SessionState::Active
                &&& out.frames@.len() == 1
                &&& is_response(out.frames@[0], Command::DestroyChannel, header.flags)
                &&& out.frames@[0].payload@ == body
                &&& !has_id(after.entries(), server_id)
                &&& !has_id(before.entries(), server_id) ==> after == before
                &&& has_id(before.entries(), server_id) ==> after.changes()
                    == crate::registry::bumped(before.changes()) && exists|i: int|
                    0 <= i < before.entries().len() && (#[trigger] before.entries()[i]).id
                        == server_id && after.entries() == before.entries().remove(i)
            },
        },
        OutputModel::Dispatch(h) => {
            &&& out.frames@.len() == 0
            &&& out.routed == Some(h)
            &&& out.body@ == body
            &&& out.close is None
            &&& after == before
            &&& next == SessionState::Active
        },
    }
}

/// Whether a request that does not decode was refused: nothing is sent, the
/// session is closed with the decode error, and the registry stays as it
/// is.
pub open spec fn refused(
    before: ChannelRegistry,
    after: ChannelRegistry,
    next: SessionState,
    out: Dispatched,
    error: DecodeError,
) -> bool {
    &&& out.frames@.len() == 0
    &&& out.routed is None
    &&& out.close == Some(CloseReason::Decode(error))
    &&& next == SessionState::Closed
    &&& after == before
}

/// Whether the body of a frame is the response to the creation of the
/// channel `asked`: it repeats the number that the client gave the channel,
/// and it gives the number under which the channel is among the entries, or
/// an error and the number zero where the channel is not there.
pub open spec fn created(
    payload: Seq<u8>,
    big: bool,
    asked: (u32, Seq<char>),
    entries: Seq<ChannelEntry>,
) -> bool {
    &&& crate::messages::channel::parse_create_response(payload, big) matches Ok(m)
    &&& m.client_channel_id == asked.0
    &&& if has_name(entries, asked.1) {
        &&& m.status.response_type == ResponseCompletionStatusEnum::Success
        &&& exists|j: int|
            0 <= j < entries.len() && (#[trigger] entries[j]).id == m.server_channel_id
                && entries[j].state.name@ == asked.1
    } else {
        &&& m.status.response_type == ResponseCompletionStatusEnum::Error
        &&& m.server_channel_id == 0
    }
}

} // verus!
