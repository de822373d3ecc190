//! The channel registry of a server: the channels by name, each with a
//! number that sessions refer to it by, and the count of the changes to the
//! list of channels that the beacons carry.

use crate::channel::{history_after, subscribed, ChannelState, PeerAddr};
use crate::fielddesc::FieldDesc;
use crate::wire::text_eq;
use vstd::prelude::*;

verus! {

/// One channel of the registry.
#[derive(Debug)]
pub struct ChannelEntry {
    /// The number that the server gave the channel.
    pub id: u32,
    /// The state of the channel.
    pub state: ChannelState,
}

/// Whether a channel of that name is among the entries.
pub open spec fn has_name(entries: Seq<ChannelEntry>, name: Seq<char>) -> bool {
    exists|i: int| 0 <= i < entries.len() && (#[trigger] entries[i]).state.name@ == name
}

/// Whether a channel of that number is among the entries.
pub open spec fn has_id(entries: Seq<ChannelEntry>, id: u32) -> bool {
    exists|i: int| 0 <= i < entries.len() && (#[trigger] entries[i]).id == id
}

/// The count of changes after one more change: it wraps around.
pub open spec fn bumped(count: u16) -> u16 {
    if count == u16::MAX {
        0
    } else {
        (count + 1) as u16
    }
}

/// Whether `v` holds the payloads of the oldest entries of `held`, oldest
/// first: all of them, or the first `limit` where there are more.
pub open spec fn oldest(held: Seq<(u64, Vec<u8>)>, limit: nat, v: Seq<Vec<u8>>) -> bool {
    &&& v.len() == if held.len() <= limit {
        held.len()
    } else {
        limit
    }
    &&& forall|k: int| 0 <= k < v.len() ==> (#[trigger] v[k])@ == held[k].1@
}

/// The registry.
#[derive(Debug)]
pub struct ChannelRegistry {
    entries: Vec<ChannelEntry>,
    next_id: u32,
    change_count: u16,
}

impl ChannelRegistry {
    /// The channels in the order in which they were created.
    pub closed spec fn entries(self) -> Seq<ChannelEntry> {
        self.entries@
    }

    /// The number that the next new channel gets.
    pub closed spec fn next_id(self) -> u32 {
        self.next_id
    }

    /// How often a channel was created or destroyed, modulo 65536.
    pub closed spec fn changes(self) -> u16 {
        self.change_count
    }

    /// No two channels have the same name or the same number, every number
    /// was given out before, and every channel is well formed.
    pub open spec fn wf(self) -> bool {
        &&& forall|i: int, j: int|
            0 <= i < j < self.entries().len() ==> (#[trigger] self.entries()[i]).state.name@ != (
            #[trigger] self.entries()[j]).state.name@
        &&& forall|i: int, j: int|
            0 <= i < j < self.entries().len() ==> (#[trigger] self.entries()[i]).id != (
            #[trigger] self.entries()[j]).id
        &&& forall|i: int|
            0 <= i < self.entries().len() ==> (#[trigger] self.entries()[i]).id < self.next_id()
        &&& forall|i: int|
            0 <= i < self.entries().len() ==> (#[trigger] self.entries()[i]).state.wf()
    }

    /// A registry without channels.
    pub fn new() -> (r: ChannelRegistry)
        ensures
            r.wf(),
            r.entries().len() == 0,
            r.next_id() == 0,
            r.changes() == 0,
    {
        ChannelRegistry { entries: Vec::new(), next_id: 0, change_count: 0 }
    }

    /// How often a channel was created or destroyed, modulo 65536.
    pub fn change_count(&self) -> (c: u16)
        ensures
            c == self.changes(),
    {
        self.change_count
    }

    /// How many channels there are.
    pub fn len(&self) -> (n: usize)
        ensures
            n == self.entries().len(),
    {
        self.entries.len()
    }

    fn position_of_name(&self, name: &str) -> (r: Option<usize>)
        ensures
            r is Some <==> has_name(self.entries(), name@),
            r matches Some(i) ==> i < self.entries().len() && self.entries()[i as int].state.name@
                == name@,
    {
        let mut i: usize = 0;
        while i < self.entries.len()
            invariant
                i <= self.entries.len(),
                forall|j: int| 0 <= j < i ==> (#[trigger] self.entries@[j]).state.name@ != name@,
            decreases self.entries.len() - i,
        {
            if text_eq(self.entries[i].state.name.as_str(), name) {
                return Some(i);
            }
            i = i + 1;
        }
        None
    }

    fn position_of_id(&self, id: u32) -> (r: Option<usize>)
        ensures
            r is Some <==> has_id(self.entries(), id),
            r matches Some(i) ==> i < self.entries().len() && self.entries()[i as int].id == id,
    {
        let mut i: usize = 0;
        while i < self.entries.len()
            invariant
                i <= self.entries.len(),
                forall|j: int| 0 <= j < i ==> (#[trigger] self.entries@[j]).id != id,
            decreases self.entries.len() - i,
        {
            if self.entries[i].id == id {
                return Some(i);
            }
            i = i + 1;
        }
        None
    }

    /// The number of the channel of that name, if there is one.
    pub fn lookup(&self, name: &str) -> (r: Option<u32>)
        ensures
            r is Some <==> has_name(self.entries(), name@),
            r matches Some(id) ==> exists|i: int|
                0 <= i < self.entries().len() && (#[trigger] self.entries()[i]).id == id
                    && self.entries()[i].state.name@ == name@,
    {
        match self.position_of_name(name) {
            Some(i) => Some(self.entries[i].id),
            None => None,
        }
    }

    /// The number of the channel of that name. Where there is none, a channel
    /// with an empty history of the given capacity, no subscriber and the
    /// schema of a variant union is created at the time `now`, and the count
    /// of changes goes up. Nothing is given, and nothing changes, where the
    /// numbers have run out.
    pub fn get_or_create(&mut self, name: &str, capacity: usize, now: u64) -> (r: Option<u32>)
        requires
            old(self).wf(),
        ensures
            final(self).wf(),
            has_name(old(self).entries(), name@) ==> r is Some && *final(self) == *old(self)
                && exists|i: int|
                0 <= i < old(self).entries().len() && (#[trigger] old(self).entries()[i]).id
                    == r.unwrap() && old(self).entries()[i].state.name@ == name@,
            !has_name(old(self).entries(), name@) && old(self).next_id() == u32::MAX ==> r is None
                && *final(self) == *old(self),
            !has_name(old(self).entries(), name@) && old(self).next_id() < u32::MAX ==> {
                &&& r == Some(old(self).next_id())
                &&& final(self).next_id() == old(self).next_id() + 1
                &&& final(self).changes() == bumped(old(self).changes())
                &&& final(self).entries().len() == old(self).entries().len() + 1
                &&& final(self).entries().take(old(self).entries().len() as int) == old(self).entries()
                &&& final(self).entries().last().id == old(self).next_id()
                &&& final(self).entries().last().state.name@ == name@
                &&& final(self).entries().last().state.schema == FieldDesc::VariantUnion
                &&& final(self).entries().last().state.messages@.len() == 0
                &&& final(self).entries().last().state.subscribers@.len() == 0
                &&& final(self).entries().last().state.capacity == capacity
                &&& final(self).entries().last().state.last_updated == now
            },
    {
        match self.position_of_name(name) {
            Some(i) => return Some(self.entries[i].id),
            None => {},
        }
        if self.next_id == u32::MAX {
            return None;
        }
        let id: u32 = self.next_id;
        let state = ChannelState::new(name.to_string(), FieldDesc::VariantUnion, capacity, now);
        let ghost before = self.entries@;
        self.entries.push(ChannelEntry { id, state });
        self.next_id = id + 1;
        self.bump();
        proof {
            assert(self.entries@.take(before.len() as int) =~= before);
            assert forall|i: int, j: int| 0 <= i < j < self.entries@.len() implies (
            #[trigger] self.entries@[i]).state.name@ != (#[trigger] self.entries@[j]).state.name@ by {
                if j < before.len() {
                    assert(self.entries@[i] == before[i] && self.entries@[j] == before[j]);
                } else {
                    assert(self.entries@[i] == before[i]);
                }
            }
            assert forall|i: int, j: int| 0 <= i < j < self.entries@.len() implies (
            #[trigger] self.entries@[i]).id != (#[trigger] self.entries@[j]).id by {
                if j < before.len() {
                    assert(self.entries@[i] == before[i] && self.entries@[j] == before[j]);
                } else {
                    assert(self.entries@[i] == before[i]);
                }
            }
        }
        Some(id)
    }

    /// Removes the channel of that name, if there is one; the count of
    /// changes goes up then. The other channels keep their order.
    pub fn destroy(&mut self, name: &str) -> (r: bool)
        requires
            old(self).wf(),
        ensures
            final(self).wf(),
            r == has_name(old(self).entries(), name@),
            !has_name(final(self).entries(), name@),
            !r ==> *final(self) == *old(self),
            r ==> final(self).changes() == bumped(old(self).changes()) && final(self).next_id()
                == old(self).next_id() && exists|i: int|
                0 <= i < old(self).entries().len() && (#[trigger] old(self).entries()[i]).state.name@ == name@ && final(self).entries() == old(self).entries().remove(i),
    {
        match self.position_of_name(name) {
            None => false,
            Some(i) => {
                let ghost before = self.entries@;
                let _ = self.entries.remove(i);
                self.bump();
                proof {
                    assert(self.entries@ == before.remove(i as int));
                    assert forall|j: int| 0 <= j < self.entries@.len() implies (
                    #[trigger] self.entries@[j]).state.name@ != name@ by {
                        if j < i {
                            assert(self.entries@[j] == before[j]);
                        } else {
                            assert(self.entries@[j] == before[j + 1]);
                        }
                    }
                    assert forall|a: int, b: int| 0 <= a < b < self.entries@.len() implies (
                    #[trigger] self.entries@[a]).state.name@ != (
                    #[trigger] self.entries@[b]).state.name@ && self.entries@[a].id
                        != self.entries@[b].id by {
                        let a0 = if a < i {
                            a
                        } else {
                            a + 1
                        };
                        let b0 = if b < i {
                            b
                        } else {
                            b + 1
                        };
                        assert(self.entries@[a] == before[a0]);
                        assert(self.entries@[b] == before[b0]);
                    }
                    assert forall|a: int| 0 <= a < self.entries@.len() implies (
                    #[trigger] self.entries@[a]).id < self.next_id && self.entries@[a].state.wf() by {
                        let a0 = if a < i {
                            a
                        } else {
                            a + 1
                        };
                        assert(self.entries@[a] == before[a0]);
                    }
                }
                true
            },
        }
    }

    /// Removes the channel of that number, if there is one; the count of
    /// changes goes up then. The other channels keep their order.
    pub fn destroy_id(&mut self, handle: u32) -> (r: bool)
        requires
            old(self).wf(),
        ensures
            final(self).wf(),
            r == has_id(old(self).entries(), handle),
            !has_id(final(self).entries(), handle),
            !r ==> *final(self) == *old(self),
            r ==> final(self).changes() == bumped(old(self).changes()) && final(self).next_id()
                == old(self).next_id() && exists|i: int|
                0 <= i < old(self).entries().len() && (#[trigger] old(self).entries()[i]).id
                    == handle && final(self).entries() == old(self).entries().remove(i),
    {
        match self.position_of_id(handle) {
            None => false,
            Some(i) => {
                let ghost before = self.entries@;
                let _ = self.entries.remove(i);
                self.bump();
                proof {
                    assert(self.entries@ == before.remove(i as int));
                    assert forall|j: int| 0 <= j < self.entries@.len() implies (
                    #[trigger] self.entries@[j]).id != handle by {
                        if j < i {
                            assert(self.entries@[j] == before[j]);
                        } else {
                            assert(self.entries@[j] == before[j + 1]);
                        }
                    }
                    assert forall|a: int, b: int| 0 <= a < b < self.entries@.len() implies (
                    #[trigger] self.entries@[a]).state.name@ != (
                    #[trigger] self.entries@[b]).state.name@ && self.entries@[a].id
                        != self.entries@[b].id by {
                        let a0 = if a < i {
                            a
                        } else {
                            a + 1
                        };
                        let b0 = if b < i {
                            b
                        } else {
                            b + 1
                        };
                        assert(self.entries@[a] == before[a0]);
                        assert(self.entries@[b] == before[b0]);
                    }
                    assert forall|a: int| 0 <= a < self.entries@.len() implies (
                    #[trigger] self.entries@[a]).id < self.next_id && self.entries@[a].state.wf() by {
                        let a0 = if a < i {
                            a
                        } else {
                            a + 1
                        };
                        assert(self.entries@[a] == before[a0]);
                    }
                }
                true
            },
        }
    }

    /// The oldest payloads of the channel of that number, oldest first: at
    /// most `limit` of them. Nothing where there is no such channel.
    pub fn history(&self, handle: u32, limit: usize) -> (r: Option<Vec<Vec<u8>>>)
        ensures
            r is Some <==> has_id(self.entries(), handle),
            r matches Some(v) ==> exists|i: int|
                0 <= i < self.entries().len() && (#[trigger] self.entries()[i]).id == handle
                    && oldest(self.entries()[i].state.messages@, limit as nat, v@),
    {
        match self.position_of_id(handle) {
            None => None,
            Some(i) => Some(self.history_at(i, limit)),
        }
    }

    /// Where the channel of that name stands among the entries, if there is
    /// one.
    pub fn position(&self, name: &str) -> (r: Option<usize>)
        ensures
            r is Some <==> has_name(self.entries(), name@),
            r matches Some(i) ==> i < self.entries().len() && self.entries()[i as int].state.name@
                == name@,
    {
        self.position_of_name(name)
    }

    /// The oldest payloads of the entry at `i`, oldest first: at most `limit`
    /// of them.
    pub fn history_at(&self, i: usize, limit: usize) -> (out: Vec<Vec<u8>>)
        requires
            i < self.entries().len(),
        ensures
            oldest(self.entries()[i as int].state.messages@, limit as nat, out@),
    {
        let messages = &self.entries[i].state.messages;
        let mut out: Vec<Vec<u8>> = Vec::new();
        let mut k: usize = 0;
        while k < messages.len() && k < limit
            invariant
                k <= messages@.len(),
                k <= limit,
                out@.len() == k,
                forall|j: int| 0 <= j < k ==> (#[trigger] out@[j])@ == messages@[j].1@,
            decreases messages@.len() - k,
        {
            out.push(messages[k].1.clone());
            k = k + 1;
        }
        out
    }

    /// The names of the channels in the order in which they were created.
    pub fn list(&self) -> (names: Vec<String>)
        ensures
            names@.len() == self.entries().len(),
            forall|i: int|
                0 <= i < names@.len() ==> (#[trigger] names@[i])@ == self.entries()[i].state.name@,
    {
        let mut names: Vec<String> = Vec::new();
        let mut i: usize = 0;
        while i < self.entries.len()
            invariant
                i <= self.entries.len(),
                names@.len() == i,
                forall|j: int|
                    0 <= j < i ==> (#[trigger] names@[j])@ == self.entries@[j].state.name@,
            decreases self.entries.len() - i,
        {
            names.push(self.entries[i].state.name.clone());
            i = i + 1;
        }
        names
    }

    /// The state of the channel of that number, if there is one.
    pub fn channel(&self, handle: u32) -> (r: Option<&ChannelState>)
        ensures
            r is Some <==> has_id(self.entries(), handle),
            r matches Some(c) ==> exists|i: int|
                0 <= i < self.entries().len() && (#[trigger] self.entries()[i]).id == handle
                    && self.entries()[i].state == *c,
    {
        match self.position_of_id(handle) {
            Some(i) => Some(&self.entries[i].state),
            None => None,
        }
    }

    /// The schema of the channel of that number, if there is one.
    pub fn schema(&self, handle: u32) -> (r: Option<&FieldDesc>)
        ensures
            r is Some <==> has_id(self.entries(), handle),
            r matches Some(d) ==> exists|i: int|
                0 <= i < self.entries().len() && (#[trigger] self.entries()[i]).id == handle
                    && self.entries()[i].state.schema == *d,
    {
        match self.position_of_id(handle) {
            Some(i) => Some(&self.entries[i].state.schema),
            None => None,
        }
    }

    /// Whether the entries are those of `before` but for the state of the
    /// entry at `i`.
    pub open spec fn only_changed(self, before: ChannelRegistry, i: int) -> bool {
        &&& self.entries().len() == before.entries().len()
        &&& self.next_id() == before.next_id()
        &&& self.changes() == before.changes()
        &&& forall|j: int|
            0 <= j < self.entries().len() && j != i ==> #[trigger] self.entries()[j]
                == before.entries()[j]
        &&& 0 <= i < self.entries().len() ==> {
            &&& self.entries()[i].id == before.entries()[i].id
            &&& self.entries()[i].state.name == before.entries()[i].state.name
            &&& self.entries()[i].state.capacity == before.entries()[i].state.capacity
        }
    }

    /// Pushes a payload to the channel of that number at the time `now`.
    /// Says whether there is such a channel; where there is none, nothing
    /// changes.
    pub fn push(&mut self, handle: u32, payload: Vec<u8>, now: u64) -> (r: bool)
        requires
            old(self).wf(),
        ensures
            final(self).wf(),
            r == has_id(old(self).entries(), handle),
            !r ==> *final(self) == *old(self),
            r ==> exists|i: int|
                0 <= i < old(self).entries().len() && (#[trigger] old(self).entries()[i]).id
                    == handle && final(self).only_changed(*old(self), i) && final(self).entries()[i].state.messages@ == history_after(
                    old(self).entries()[i].state.messages@,
                    old(self).entries()[i].state.capacity as nat,
                    (now, payload),
                ) && final(self).entries()[i].state.last_updated == now && final(self).entries()[i].state.subscribers == old(self).entries()[i].state.subscribers
                    && final(self).entries()[i].state.schema == old(self).entries()[i].state.schema,
    {
        match self.position_of_id(handle) {
            None => false,
            Some(i) => {
                let ghost before = self.entries@;
                self.entries[i].state.push_message(payload, now);
                proof {
                    self.lemma_kept(before, i as int);
                }
                true
            },
        }
    }

    /// Adds the address to the subscribers of the channel of that number.
    /// Says whether there is such a channel.
    pub fn subscribe(&mut self, handle: u32, client: PeerAddr) -> (r: bool)
        requires
            old(self).wf(),
        ensures
            final(self).wf(),
            r == has_id(old(self).entries(), handle),
            !r ==> *final(self) == *old(self),
            r ==> exists|i: int|
                0 <= i < old(self).entries().len() && (#[trigger] old(self).entries()[i]).id
                    == handle && final(self).only_changed(*old(self), i) && subscribed(
                    final(self).entries()[i].state.subscribers@,
                    client,
                ) && final(self).entries()[i].state.subscribers@ == (if subscribed(
                    old(self).entries()[i].state.subscribers@,
                    client,
                ) {
                    old(self).entries()[i].state.subscribers@
                } else {
                    old(self).entries()[i].state.subscribers@.push(client)
                }) && final(self).entries()[i].state.messages == old(self).entries()[i].state.messages && final(self).entries()[i].state.schema == old(self).entries()[i].state.schema,
    {
        match self.position_of_id(handle) {
            None => false,
            Some(i) => {
                let ghost before = self.entries@;
                self.entries[i].state.add_subscriber(client);
                proof {
                    self.lemma_kept(before, i as int);
                }
                true
            },
        }
    }

    /// Takes the address from the subscribers of the channel of that number.
    /// Says whether there is such a channel.
    pub fn unsubscribe(&mut self, handle: u32, client: PeerAddr) -> (r: bool)
        requires
            old(self).wf(),
        ensures
            final(self).wf(),
            r == has_id(old(self).entries(), handle),
            !r ==> *final(self) == *old(self),
            r ==> exists|i: int|
                0 <= i < old(self).entries().len() && (#[trigger] old(self).entries()[i]).id
                    == handle && final(self).only_changed(*old(self), i) && !subscribed(
                    final(self).entries()[i].state.subscribers@,
                    client,
                ) && final(self).entries()[i].state.messages == old(self).entries()[i].state.messages && final(self).entries()[i].state.schema == old(self).entries()[i].state.schema,
    {
        match self.position_of_id(handle) {
            None => false,
            Some(i) => {
                let ghost before = self.entries@;
                self.entries[i].state.remove_subscriber(client);
                proof {
                    self.lemma_kept(before, i as int);
                }
                true
            },
        }
    }

    /// Gives the channel of that number another schema. Says whether there
    /// is such a channel.
    pub fn set_schema(&mut self, handle: u32, schema: FieldDesc) -> (r: bool)
        requires
            old(self).wf(),
        ensures
            final(self).wf(),
            r == has_id(old(self).entries(), handle),
            !r ==> *final(self) == *old(self),
            r ==> exists|i: int|
                0 <= i < old(self).entries().len() && (#[trigger] old(self).entries()[i]).id
                    == handle && final(self).only_changed(*old(self), i) && final(self).entries()[i].state.schema == schema && final(self).entries()[i].state.messages
                    == old(self).entries()[i].state.messages && final(self).entries()[i].state.subscribers == old(self).entries()[i].state.subscribers,
    {
        match self.position_of_id(handle) {
            None => false,
            Some(i) => {
                let ghost before = self.entries@;
                self.entries[i].state.schema = schema;
                proof {
                    self.lemma_kept(before, i as int);
                }
                true
            },
        }
    }

    /// The channel of a number is the only channel of that number.
    pub proof fn lemma_one_id(self, id: u32)
        requires
            self.wf(),
        ensures
            forall|i: int, j: int|
                0 <= i < self.entries().len() && 0 <= j < self.entries().len() && (
                #[trigger] self.entries()[i]).id == id && (#[trigger] self.entries()[j]).id == id
                    ==> i == j,
    {
        assert forall|i: int, j: int|
            0 <= i < self.entries().len() && 0 <= j < self.entries().len() && (
            #[trigger] self.entries()[i]).id == id && (#[trigger] self.entries()[j]).id
                == id implies i == j by {
            if i < j {
                assert(self.entries()[i].id != self.entries()[j].id);
            } else if j < i {
                assert(self.entries()[j].id != self.entries()[i].id);
            }
        }
    }

    proof fn lemma_kept(self, before: Seq<ChannelEntry>, i: int)
        requires
            0 <= i < before.len(),
            self.entries@.len() == before.len(),
            forall|j: int| 0 <= j < before.len() && j != i ==> self.entries@[j] == before[j],
            self.entries@[i].id == before[i].id,
            self.entries@[i].state.name == before[i].state.name,
            self.entries@[i].state.wf(),
            forall|a: int, b: int|
                0 <= a < b < before.len() ==> (#[trigger] before[a]).state.name@ != (
                #[trigger] before[b]).state.name@,
            forall|a: int, b: int|
                0 <= a < b < before.len() ==> (#[trigger] before[a]).id != (#[trigger] before[b]).id,
            forall|a: int| 0 <= a < before.len() ==> (#[trigger] before[a]).id < self.next_id,
            forall|a: int| 0 <= a < before.len() ==> (#[trigger] before[a]).state.wf(),
        ensures
            self.wf(),
    {
        assert forall|a: int, b: int| 0 <= a < b < self.entries@.len() implies (
        #[trigger] self.entries@[a]).state.name@ != (#[trigger] self.entries@[b]).state.name@
            && self.entries@[a].id != self.entries@[b].id by {
            assert(self.entries@[a].state.name@ == before[a].state.name@);
            assert(self.entries@[b].state.name@ == before[b].state.name@);
            assert(self.entries@[a].id == before[a].id);
            assert(self.entries@[b].id == before[b].id);
        }
        assert forall|a: int| 0 <= a < self.entries@.len() implies (#[trigger] self.entries@[a]).id
            < self.next_id && self.entries@[a].state.wf() by {
            assert(self.entries@[a].id == before[a].id);
            if a != i {
                assert(self.entries@[a] == before[a]);
            }
        }
    }

    fn bump(&mut self)
        ensures
            final(self).entries == old(self).entries,
            final(self).next_id == old(self).next_id,
            final(self).change_count == bumped(old(self).change_count),
    {
        self.change_count = self.change_count.wrapping_add(1);
    }
}

} // verus!
