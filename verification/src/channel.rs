//! The state of one channel: its schema, a bounded history of the payloads
//! that were pushed to it, and the sessions that subscribed to it.
//!
//! Time is a number of milliseconds that the caller reads from its clock.

use crate::fielddesc::FieldDesc;
use std::collections::VecDeque;
use vstd::prelude::*;

verus! {

/// The address of a peer: sixteen bytes of address, with an IPv4 address in
/// its mapped form, and a port.
#[derive(Debug, Clone, Copy, PartialEq, Eq)]
pub struct PeerAddr {
    pub ip: [u8; 16],
    pub port: u16,
}

impl PeerAddr {
    /// Whether two addresses have the same bytes and the same port.
    pub open spec fn same(self, other: PeerAddr) -> bool {
        self.ip@ == other.ip@ && self.port == other.port
    }

    /// Whether two addresses have the same bytes and the same port.
    pub fn is_same(&self, other: &PeerAddr) -> (b: bool)
        ensures
            b == self.same(*other),
    {
        if self.port != other.port {
            return false;
        }
        let mut i: usize = 0;
        while i < 16
            invariant
                i <= 16,
                forall|j: int| 0 <= j < i ==> self.ip@[j] == other.ip@[j],
            decreases 16 - i,
        {
            if self.ip[i] != other.ip[i] {
                return false;
            }
            i = i + 1;
        }
        assert(self.ip@ =~= other.ip@);
        true
    }
}

/// Whether the address is among the subscribers.
pub open spec fn subscribed(subscribers: Seq<PeerAddr>, client: PeerAddr) -> bool {
    exists|i: int| 0 <= i < subscribers.len() && (#[trigger] subscribers[i]).same(client)
}

/// No address is among the subscribers twice.
pub open spec fn distinct_subscribers(subscribers: Seq<PeerAddr>) -> bool {
    forall|i: int, j: int|
        0 <= i < j < subscribers.len() ==> !(#[trigger] subscribers[i]).same(
            #[trigger] subscribers[j],
        )
}

/// The history after one more entry: the entry is put at the end, and where
/// the history was full its oldest entry is dropped first. A history of
/// capacity zero holds nothing.
pub open spec fn history_after<T>(history: Seq<T>, capacity: nat, entry: T) -> Seq<T> {
    if capacity == 0 {
        history
    } else if history.len() >= capacity {
        history.skip(history.len() - capacity + 1).push(entry)
    } else {
        history.push(entry)
    }
}

/// The state of one channel.
#[derive(Debug)]
pub struct ChannelState {
    /// The name of the channel.
    pub name: String,
    /// The type of the payloads.
    pub schema: FieldDesc,
    /// The latest payloads, oldest first, each with the time it was pushed.
    pub messages: VecDeque<(u64, Vec<u8>)>,
    /// The sessions that subscribed.
    pub subscribers: Vec<PeerAddr>,
    /// The time of the last push, or of the creation.
    pub last_updated: u64,
    /// The most payloads that the history holds.
    pub capacity: usize,
}

impl ChannelState {
    /// The history is within its capacity and no subscriber is there twice.
    pub open spec fn wf(self) -> bool {
        self.messages@.len() <= self.capacity && distinct_subscribers(self.subscribers@)
    }

    /// A channel with an empty history and no subscriber.
    pub fn new(name: String, schema: FieldDesc, capacity: usize, now: u64) -> (c: ChannelState)
        ensures
            c.name == name,
            c.schema == schema,
            c.messages@.len() == 0,
            c.subscribers@.len() == 0,
            c.last_updated == now,
            c.capacity == capacity,
            c.wf(),
    {
        ChannelState {
            name,
            schema,
            messages: VecDeque::new(),
            subscribers: Vec::new(),
            last_updated: now,
            capacity,
        }
    }

    /// Puts a payload at the end of the history at the time `now`. Where the
    /// history is full, its oldest payload is dropped.
    pub fn push_message(&mut self, payload: Vec<u8>, now: u64)
        requires
            old(self).wf(),
        ensures
            final(self).wf(),
            final(self).messages@ == history_after(
                old(self).messages@,
                old(self).capacity as nat,
                (now, payload),
            ),
            final(self).last_updated == now,
            final(self).name == old(self).name,
            final(self).schema == old(self).schema,
            final(self).subscribers == old(self).subscribers,
            final(self).capacity == old(self).capacity,
    {
        self.last_updated = now;
        if self.capacity == 0 {
            return ;
        }
        let ghost before = self.messages@;
        if self.messages.len() == self.capacity {
            let _ = self.messages.pop_front();
            assert(self.messages@ =~= before.skip(before.len() - self.capacity + 1));
        }
        self.messages.push_back((now, payload));
    }

    /// Whether the address is among the subscribers.
    pub fn is_subscribed(&self, client: &PeerAddr) -> (b: bool)
        ensures
            b == subscribed(self.subscribers@, *client),
    {
        self.position(client).is_some()
    }

    fn position(&self, client: &PeerAddr) -> (r: Option<usize>)
        ensures
            r is Some <==> subscribed(self.subscribers@, *client),
            r matches Some(i) ==> i < self.subscribers@.len() && self.subscribers@[i as int].same(
                *client,
            ),
    {
        let mut i: usize = 0;
        while i < self.subscribers.len()
            invariant
                i <= self.subscribers.len(),
                forall|j: int| 0 <= j < i ==> !(#[trigger] self.subscribers@[j]).same(*client),
            decreases self.subscribers.len() - i,
        {
            if self.subscribers[i].is_same(client) {
                return Some(i);
            }
            i = i + 1;
        }
        None
    }

    /// Adds the address to the subscribers unless it is among them.
    pub fn add_subscriber(&mut self, client: PeerAddr)
        requires
            old(self).wf(),
        ensures
            final(self).wf(),
            final(self).subscribers@ == if subscribed(old(self).subscribers@, client) {
                old(self).subscribers@
            } else {
                old(self).subscribers@.push(client)
            },
            subscribed(final(self).subscribers@, client),
            final(self).name == old(self).name,
            final(self).schema == old(self).schema,
            final(self).messages == old(self).messages,
            final(self).last_updated == old(self).last_updated,
            final(self).capacity == old(self).capacity,
    {
        if self.position(&client).is_none() {
            self.subscribers.push(client);
            assert(self.subscribers@[self.subscribers@.len() - 1].same(client));
        }
    }

    /// Takes the address from the subscribers; the others keep their order.
    pub fn remove_subscriber(&mut self, client: PeerAddr)
        requires
            old(self).wf(),
        ensures
            final(self).wf(),
            !subscribed(final(self).subscribers@, client),
            !subscribed(old(self).subscribers@, client) ==> final(self).subscribers@ == old(
                self,
            ).subscribers@,
            subscribed(old(self).subscribers@, client) ==> exists|i: int|
                0 <= i < old(self).subscribers@.len() && (#[trigger] old(self).subscribers@[i]).same(
                    client,
                ) && final(self).subscribers@ == old(self).subscribers@.remove(i),
            final(self).name == old(self).name,
            final(self).schema == old(self).schema,
            final(self).messages == old(self).messages,
            final(self).last_updated == old(self).last_updated,
            final(self).capacity == old(self).capacity,
    {
        match self.position(&client) {
            None => {},
            Some(i) => {
                let ghost before = self.subscribers@;
                let _ = self.subscribers.remove(i);
                assert(self.subscribers@ == before.remove(i as int));
                assert forall|j: int| 0 <= j < self.subscribers@.len() implies !(
                #[trigger] self.subscribers@[j]).same(client) by {
                    if j < i {
                        assert(self.subscribers@[j] == before[j]);
                        assert(!before[j].same(before[i as int]));
                    } else {
                        assert(self.subscribers@[j] == before[j + 1]);
                        assert(!before[i as int].same(before[j + 1]));
                    }
                }
                assert forall|a: int, b: int|
                    0 <= a < b < self.subscribers@.len() implies !(
                #[trigger] self.subscribers@[a]).same(#[trigger] self.subscribers@[b]) by {
                    let a0 = if a < i {
                        a
                    } else {
                        a + 1
                    };
                    let b0 = if b < i {
                        b
                    } else {
                        b + 1
                    };
                    assert(self.subscribers@[a] == before[a0]);
                    assert(self.subscribers@[b] == before[b0]);
                    assert(!before[a0].same(before[b0]));
                }
            },
        }
    }
}

} // verus!
