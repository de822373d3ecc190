//! The MessagePack protocol, in which messages in MessagePack come behind a
//! six-byte header: that header, and the store of channels of the protocol.
//!
//! A channel of the store holds its messages as text, without a bound. The
//! names of the channels are regular expressions: a search gives the
//! channels whose name matches a text.

use regex::RegexSet;
use std::collections::VecDeque;
use crate::wire::{be32, text_eq};
use vstd::prelude::*;

verus! {

/// The length of the header in bytes.
pub const HEADER_LENGTH: usize = 6;

/// The header of a message: a version, a kind and the size of what follows.
#[derive(Debug, Clone, Copy, PartialEq, Eq, Structural)]
pub struct Header {
    pub version: u8,
    pub msg_type: u8,
    pub msg_size: u32,
}

impl Header {
    /// A header.
    pub fn new(version: u8, msg_type: u8, msg_size: u32) -> (h: Header)
        ensures
            h.version == version,
            h.msg_type == msg_type,
            h.msg_size == msg_size,
    {
        Header { version, msg_type, msg_size }
    }

    /// The header that the first six bytes hold: the version, the kind and
    /// the size, most significant byte first.
    pub fn from_bytes(bytes: &[u8]) -> (h: Header)
        requires
            bytes@.len() >= 6,
        ensures
            h.version == bytes@[0],
            h.msg_type == bytes@[1],
            h.msg_size == be32(bytes@[2], bytes@[3], bytes@[4], bytes@[5]),
    {
        let msg_size: u32 = match crate::wire::read_u32(bytes, 2, true) {
            Ok((n, _)) => n,
            Err(_) => 0,
        };
        Header { version: bytes[0], msg_type: bytes[1], msg_size }
    }

    /// The header at the start of `bytes`, if there are six bytes.
    pub fn parse(bytes: &[u8]) -> (h: Option<Header>)
        ensures
            h is Some <==> bytes@.len() >= 6,
            h matches Some(x) ==> x.version == bytes@[0] && x.msg_type == bytes@[1] && x.msg_size
                == be32(bytes@[2], bytes@[3], bytes@[4], bytes@[5]),
    {
        if bytes.len() < HEADER_LENGTH {
            None
        } else {
            Some(Header::from_bytes(bytes))
        }
    }
}

/// The kinds of messages.
#[derive(Debug, Clone, Copy, PartialEq, Eq, Structural)]
pub enum MsgType {
    Echo,
    ConnectionValidation,
    Chat,
}

/// The kind that a byte names, if it names one.
pub open spec fn msg_type_of(byte: u8) -> Option<MsgType> {
    if byte == 0 {
        Some(MsgType::Echo)
    } else if byte == 1 {
        Some(MsgType::ConnectionValidation)
    } else if byte == 2 {
        Some(MsgType::Chat)
    } else {
        None
    }
}

/// The reader of the MessagePack protocol.
pub struct WithMsgPackRedis;

/// Why a message of the MessagePack protocol was not taken.
#[derive(Debug, Clone, Copy, PartialEq, Eq, Structural)]
pub enum MsgError {
    /// There are fewer than six bytes.
    ShortHeader,
    /// The kind byte names no kind.
    UnknownType,
}

impl WithMsgPackRedis {
    /// The kind of the message at the start of `bytes`, by its header.
    pub fn process_bytes(&self, bytes: &[u8]) -> (r: Result<MsgType, MsgError>)
        ensures
            bytes@.len() < 6 ==> r == Err::<MsgType, MsgError>(MsgError::ShortHeader),
            bytes@.len() >= 6 ==> match msg_type_of(bytes@[1]) {
                Some(kind) => r == Ok::<MsgType, MsgError>(kind),
                None => r == Err::<MsgType, MsgError>(MsgError::UnknownType),
            },
    {
        let header = match Header::parse(bytes) {
            Some(h) => h,
            None => return Err(MsgError::ShortHeader),
        };
        match header.msg_type {
            0 => Ok(MsgType::Echo),
            1 => Ok(MsgType::ConnectionValidation),
            2 => Ok(MsgType::Chat),
            _ => Err(MsgError::UnknownType),
        }
    }
}

/// One channel of the store.
#[derive(Debug)]
pub struct Channel {
    /// The name; it is read as a regular expression in a search.
    pub name: String,
    /// The clients that subscribed.
    pub subscribers: Vec<String>,
    /// The schema of the messages, as text.
    pub schema: String,
    /// The messages, oldest first.
    pub messages: VecDeque<String>,
}

/// Whether a channel of that name is among the channels.
pub open spec fn stored(channels: Seq<Channel>, name: Seq<char>) -> bool {
    exists|i: int| 0 <= i < channels.len() && (#[trigger] channels[i]).name@ == name
}

/// The names of the channels, in their order.
pub open spec fn names_of(channels: Seq<Channel>) -> Seq<Seq<char>> {
    Seq::new(channels.len(), |i: int| channels[i].name@)
}

/// Which of the regular expressions `patterns` match the text `text`, by
/// their places in `patterns`, in ascending order; nothing where one of them
/// is no regular expression.
pub uninterp spec fn regex_set_matches(patterns: Seq<Seq<char>>, text: Seq<char>) -> Option<
    Seq<usize>,
>;

/// `regex::RegexSet::new` and `RegexSet::matches`: the places of the
/// patterns that match the text, as the iterator over the matches gives
/// them, which is in ascending order and within the number of patterns; or
/// nothing where the set cannot be built because a pattern is no regular
/// expression (or the set is too large).
#[verifier::external_body]
fn match_set(patterns: &Vec<String>, text: &str) -> (r: Option<Vec<usize>>)
    ensures
        r is Some <==> regex_set_matches(patterns.deep_view(), text@) is Some,
        r matches Some(v) ==> v@ == regex_set_matches(patterns.deep_view(), text@).unwrap(),
        r matches Some(v) ==> forall|k: int| 0 <= k < v@.len() ==> #[trigger] v@[k] < patterns@.len(),
        r matches Some(v) ==> forall|j: int, k: int|
            0 <= j < k < v@.len() ==> #[trigger] v@[j] < #[trigger] v@[k],
{
    match RegexSet::new(patterns.iter()) {
        Ok(set) => Some(set.matches(text).into_iter().collect()),
        Err(_) => None,
    }
}

/// The store of channels.
#[derive(Debug)]
pub struct ChannelStore {
    channels: Vec<Channel>,
}

impl ChannelStore {
    /// The channels in the order in which they were created.
    pub closed spec fn channels(self) -> Seq<Channel> {
        self.channels@
    }

    /// No two channels have the same name.
    pub open spec fn wf(self) -> bool {
        forall|i: int, j: int|
            0 <= i < j < self.channels().len() ==> (#[trigger] self.channels()[i]).name@ != (
            #[trigger] self.channels()[j]).name@
    }

    /// Whether the channels are those of `before` but for the messages of
    /// the channel at `i`.
    pub open spec fn only_messages_changed(self, before: ChannelStore, i: int) -> bool {
        &&& self.channels().len() == before.channels().len()
        &&& forall|j: int|
            0 <= j < self.channels().len() && j != i ==> #[trigger] self.channels()[j]
                == before.channels()[j]
        &&& 0 <= i < self.channels().len() ==> {
            &&& self.channels()[i].name == before.channels()[i].name
            &&& self.channels()[i].schema == before.channels()[i].schema
            &&& self.channels()[i].subscribers == before.channels()[i].subscribers
        }
    }

    /// A store without channels.
    pub fn new() -> (s: ChannelStore)
        ensures
            s.wf(),
            s.channels().len() == 0,
    {
        ChannelStore { channels: Vec::new() }
    }

    /// How many channels there are.
    pub fn len(&self) -> (n: usize)
        ensures
            n == self.channels().len(),
    {
        self.channels.len()
    }

    fn position(&self, name: &str) -> (r: Option<usize>)
        ensures
            r is Some <==> stored(self.channels(), name@),
            r matches Some(i) ==> i < self.channels().len() && self.channels()[i as int].name@
                == name@,
    {
        let mut i: usize = 0;
        while i < self.channels.len()
            invariant
                i <= self.channels.len(),
                forall|j: int| 0 <= j < i ==> (#[trigger] self.channels@[j]).name@ != name@,
            decreases self.channels.len() - i,
        {
            if text_eq(self.channels[i].name.as_str(), name) {
                return Some(i);
            }
            i = i + 1;
        }
        None
    }

    /// Creates a channel of that name with the given schema, no subscriber
    /// and no message, unless there is a channel of that name. Says whether
    /// the channel was created.
    pub fn create_channel(&mut self, name: &str, schema: String) -> (r: bool)
        requires
            old(self).wf(),
        ensures
            final(self).wf(),
            r == !stored(old(self).channels(), name@),
            !r ==> *final(self) == *old(self),
            r ==> final(self).channels().len() == old(self).channels().len() + 1 && final(self).channels().take(old(self).channels().len() as int) == old(self).channels() && final(self).channels().last().name@ == name@ && final(self).channels().last().schema == schema
                && final(self).channels().last().subscribers@.len() == 0 && final(self).channels().last().messages@.len() == 0,
    {
        if self.position(name).is_some() {
            return false;
        }
        let ghost before = self.channels@;
        self.channels.push(
            Channel {
                name: name.to_string(),
                subscribers: Vec::new(),
                schema,
                messages: VecDeque::new(),
            },
        );
        proof {
            assert(self.channels@.take(before.len() as int) =~= before);
            assert forall|i: int, j: int| 0 <= i < j < self.channels@.len() implies (
            #[trigger] self.channels@[i]).name@ != (#[trigger] self.channels@[j]).name@ by {
                assert(self.channels@[i] == before[i]);
                if j < before.len() {
                    assert(self.channels@[j] == before[j]);
                }
            }
        }
        true
    }

    /// Removes the channel of that name. Says whether there was one. The
    /// other channels keep their order.
    pub fn delete_channel(&mut self, name: &str) -> (r: bool)
        requires
            old(self).wf(),
        ensures
            final(self).wf(),
            r == stored(old(self).channels(), name@),
            !stored(final(self).channels(), name@),
            !r ==> *final(self) == *old(self),
            r ==> exists|i: int|
                0 <= i < old(self).channels().len() && (#[trigger] old(self).channels()[i]).name@
                    == name@ && final(self).channels() == old(self).channels().remove(i),
    {
        match self.position(name) {
            None => false,
            Some(i) => {
                let ghost before = self.channels@;
                let _ = self.channels.remove(i);
                proof {
                    assert(self.channels@ == before.remove(i as int));
                    assert forall|j: int| 0 <= j < self.channels@.len() implies (
                    #[trigger] self.channels@[j]).name@ != name@ by {
                        if j < i {
                            assert(self.channels@[j] == before[j]);
                        } else {
                            assert(self.channels@[j] == before[j + 1]);
                        }
                    }
                    assert forall|a: int, b: int| 0 <= a < b < self.channels@.len() implies (
                    #[trigger] self.channels@[a]).name@ != (#[trigger] self.channels@[b]).name@ by {
                        let a0 = if a < i {
                            a
                        } else {
                            a + 1
                        };
                        let b0 = if b < i {
                            b
                        } else {
                            b + 1
                        };
                        assert(self.channels@[a] == before[a0]);
                        assert(self.channels@[b] == before[b0]);
                    }
                }
                true
            },
        }
    }

    /// The schema of the channel of that name, if there is one.
    pub fn get_channel_schema(&self, name: &str) -> (r: Option<String>)
        ensures
            r is Some <==> stored(self.channels(), name@),
            r matches Some(schema) ==> exists|i: int|
                0 <= i < self.channels().len() && (#[trigger] self.channels()[i]).name@ == name@
                    && self.channels()[i].schema@ == schema@,
    {
        match self.position(name) {
            Some(i) => Some(self.channels[i].schema.clone()),
            None => None,
        }
    }

    /// Puts a message at the end of the channel of that name. Says whether
    /// there is such a channel.
    pub fn put_message(&mut self, name: &str, message: String) -> (r: bool)
        requires
            old(self).wf(),
        ensures
            final(self).wf(),
            r == stored(old(self).channels(), name@),
            !r ==> *final(self) == *old(self),
            r ==> exists|i: int|
                0 <= i < old(self).channels().len() && (#[trigger] old(self).channels()[i]).name@
                    == name@ && final(self).only_messages_changed(*old(self), i) && final(self).channels()[i].messages@ == old(self).channels()[i].messages@.push(message),
    {
        match self.position(name) {
            None => false,
            Some(i) => {
                let ghost before = self.channels@;
                self.channels[i].messages.push_back(message);
                proof {
                    assert forall|a: int, b: int| 0 <= a < b < self.channels@.len() implies (
                    #[trigger] self.channels@[a]).name@ != (#[trigger] self.channels@[b]).name@ by {
                        assert(self.channels@[a].name@ == before[a].name@);
                        assert(self.channels@[b].name@ == before[b].name@);
                    }
                }
                true
            },
        }
    }

    /// The oldest messages of the channel of that name, oldest first: at most
    /// `limit` of them, and none where there is no such channel.
    pub fn get_messages(&self, name: &str, limit: usize) -> (r: Vec<String>)
        ensures
            !stored(self.channels(), name@) ==> r@.len() == 0,
            stored(self.channels(), name@) ==> exists|i: int|
                0 <= i < self.channels().len() && (#[trigger] self.channels()[i]).name@ == name@
                    && r@.len() == (if self.channels()[i].messages@.len() <= limit {
                    self.channels()[i].messages@.len()
                } else {
                    limit as nat
                }) && forall|k: int|
                    0 <= k < r@.len() ==> (#[trigger] r@[k])@ == self.channels()[i].messages@[k]@,
    {
        match self.position(name) {
            None => Vec::new(),
            Some(i) => {
                let messages = &self.channels[i].messages;
                let mut out: Vec<String> = Vec::new();
                let mut k: usize = 0;
                while k < messages.len() && k < limit
                    invariant
                        k <= messages@.len(),
                        k <= limit,
                        out@.len() == k,
                        forall|j: int| 0 <= j < k ==> (#[trigger] out@[j])@ == messages@[j]@,
                    decreases messages@.len() - k,
                {
                    out.push(messages[k].clone());
                    k = k + 1;
                }
                out
            },
        }
    }

    fn names(&self) -> (names: Vec<String>)
        ensures
            names.deep_view() == names_of(self.channels()),
    {
        let mut names: Vec<String> = Vec::new();
        let mut i: usize = 0;
        while i < self.channels.len()
            invariant
                i <= self.channels.len(),
                names@.len() == i,
                forall|j: int| 0 <= j < i ==> (#[trigger] names@[j])@ == self.channels@[j].name@,
            decreases self.channels.len() - i,
        {
            names.push(self.channels[i].name.clone());
            i = i + 1;
        }
        assert(names.deep_view() =~= names_of(self.channels()));
        names
    }

    /// The names of the channels whose name, read as a regular expression,
    /// matches the text `pattern`, in the order of the store. Every name has
    /// to be a regular expression.
    pub fn search_channels(&self, pattern: &str) -> (r: Vec<String>)
        requires
            regex_set_matches(names_of(self.channels()), pattern@) is Some,
        ensures
            found(r.deep_view(), self.channels(), pattern@),
    {
        let names = self.names();
        match match_set(&names, pattern) {
            Some(hits) => picked(&names, &hits),
            None => {
                assert(false);
                Vec::new()
            },
        }
    }

    /// Whether every name of the store is a regular expression, so that the
    /// store can be searched for the text `pattern`.
    pub fn can_search(&self, pattern: &str) -> (b: bool)
        ensures
            b == regex_set_matches(names_of(self.channels()), pattern@) is Some,
    {
        let names = self.names();
        match_set(&names, pattern).is_some()
    }

    /// The names of the channels whose name, read as a regular expression,
    /// matches the text `pattern`, in the order of the store; or nothing
    /// where a name is no regular expression.
    pub fn try_search_channels(&self, pattern: &str) -> (r: Option<Vec<String>>)
        ensures
            r is Some <==> regex_set_matches(names_of(self.channels()), pattern@) is Some,
            r matches Some(v) ==> found(v.deep_view(), self.channels(), pattern@),
    {
        if self.can_search(pattern) {
            Some(self.search_channels(pattern))
        } else {
            None
        }
    }
}

/// Whether `names` are the names of the channels that match the text, in the
/// order of the store.
pub open spec fn found(names: Seq<Seq<char>>, channels: Seq<Channel>, text: Seq<char>) -> bool {
    &&& regex_set_matches(names_of(channels), text) matches Some(hits)
    &&& names == chosen(names_of(channels), hits)
}

/// The items of `all` at the places `places`, which are places of `all`.
pub open spec fn chosen(all: Seq<Seq<char>>, places: Seq<usize>) -> Seq<Seq<char>> {
    Seq::new(places.len(), |k: int| all[places[k] as int])
}

/// The names at the places that matched.
pub fn picked(names: &Vec<String>, places: &Vec<usize>) -> (r: Vec<String>)
    requires
        forall|k: int| 0 <= k < places@.len() ==> #[trigger] places@[k] < names@.len(),
    ensures
        r.deep_view() == chosen(names.deep_view(), places@),
{
    let mut out: Vec<String> = Vec::new();
    let mut k: usize = 0;
    while k < places.len()
        invariant
            k <= places.len(),
            out@.len() == k,
            forall|j: int| 0 <= j < places@.len() ==> #[trigger] places@[j] < names@.len(),
            forall|j: int| 0 <= j < k ==> (#[trigger] out@[j])@ == names@[places@[j] as int]@,
        decreases places.len() - k,
    {
        out.push(names[places[k]].clone());
        k = k + 1;
    }
    assert(out.deep_view() =~= chosen(names.deep_view(), places@));
    out
}

} // verus!
