//! The announcement of the MessagePack protocol: a line of text in a
//! datagram by which a server names the address where it listens, and the
//! client that waits for it.
//!
//! An announcement begins with a fixed word. What the client takes for the
//! address is the text without that word, wherever it occurs, and without
//! the white space at both ends.

use vstd::prelude::*;
use vstd::string::StrSliceExecFns;
use vstd::string::StringExecFns;

verus! {

/// The word that an announcement begins with: `DISCOVER_SERVER:`.
pub open spec fn announcement_word() -> Seq<char> {
    seq!['D', 'I', 'S', 'C', 'O', 'V', 'E', 'R', '_', 'S', 'E', 'R', 'V', 'E', 'R', ':']
}

/// The number of characters of that word.
pub const WORD_LENGTH: usize = 16;

/// The address to which the client binds its datagram socket unless another
/// is given or configured.
pub open spec fn any_address() -> Seq<char> {
    seq!['0', '.', '0', '.', '0', '.', '0', ':', '0']
}

/// The size of the client's buffers where none is given or configured.
pub const DEFAULT_BUFFER_SIZE: usize = 1024;

/// Whether a character is white space: a character with the Unicode
/// property `White_Space`.
pub open spec fn white(c: char) -> bool {
    let code = c as u32;
    ||| 0x09 <= code <= 0x0D
    ||| code == 0x20
    ||| code == 0x85
    ||| code == 0xA0
    ||| code == 0x1680
    ||| 0x2000 <= code <= 0x200A
    ||| code == 0x2028
    ||| code == 0x2029
    ||| code == 0x202F
    ||| code == 0x205F
    ||| code == 0x3000
}

/// The text without the white space at its start.
pub open spec fn trim_start(s: Seq<char>) -> Seq<char>
    decreases s.len(),
{
    if s.len() > 0 && white(s[0]) {
        trim_start(s.skip(1))
    } else {
        s
    }
}

/// The text without the white space at its end.
pub open spec fn trim_end(s: Seq<char>) -> Seq<char>
    decreases s.len(),
{
    if s.len() > 0 && white(s.last()) {
        trim_end(s.drop_last())
    } else {
        s
    }
}

/// The text without the white space at both ends.
pub open spec fn trimmed(s: Seq<char>) -> Seq<char> {
    trim_end(trim_start(s))
}

/// The text without the announcement word: every occurrence of it is left
/// out, the leftmost first.
pub open spec fn without_word(s: Seq<char>) -> Seq<char>
    decreases s.len(),
{
    if s.len() == 0 {
        s
    } else if announcement_word().is_prefix_of(s) {
        without_word(s.skip(16))
    } else {
        seq![s[0]] + without_word(s.skip(1))
    }
}

/// The address that a datagram's text announces, if it is an announcement.
pub open spec fn announced(text: Seq<char>) -> Option<Seq<char>> {
    if announcement_word().is_prefix_of(text) {
        Some(trimmed(without_word(text)))
    } else {
        None
    }
}

/// Whether a character is white space.
pub fn is_space(c: char) -> (b: bool)
    ensures
        b == white(c),
{
    let code: u32 = c as u32;
    (0x09 <= code && code <= 0x0D) || code == 0x20 || code == 0x85 || code == 0xA0 || code
        == 0x1680 || (0x2000 <= code && code <= 0x200A) || code == 0x2028 || code == 0x2029
        || code == 0x202F || code == 0x205F || code == 0x3000
}

/// Whether the announcement word stands in `text` at the character `at`.
/// `len` is the number of characters of `text`.
fn word_at(text: &str, len: usize, at: usize) -> (b: bool)
    requires
        len == text@.len(),
        at <= len,
    ensures
        b == announcement_word().is_prefix_of(text@.skip(at as int)),
{
    if len - at < WORD_LENGTH {
        return false;
    }
    let word = "DISCOVER_SERVER:";
    proof {
        reveal_strlit("DISCOVER_SERVER:");
        assert(word@ =~= announcement_word());
    }
    let mut k: usize = 0;
    while k < WORD_LENGTH
        invariant
            k <= 16,
            at + 16 <= len,
            len == text@.len(),
            word@ == announcement_word(),
            forall|j: int| 0 <= j < k ==> text@[at + j] == announcement_word()[j],
        decreases 16 - k,
    {
        if text.get_char(at + k) != word.get_char(k) {
            proof {
                let rest = text@.skip(at as int);
                assert(rest[k as int] != announcement_word()[k as int]);
                if announcement_word().is_prefix_of(rest) {
                    assert(rest.subrange(0, 16)[k as int] == announcement_word()[k as int]);
                }
            }
            return false;
        }
        k += 1;
    }
    proof {
        let rest = text@.skip(at as int);
        assert(rest.subrange(0, 16) =~= announcement_word());
    }
    true
}

/// The text of a datagram that announces the address `addr`.
pub fn announcement(addr: &str) -> (text: String)
    ensures
        text@ == announcement_word() + addr@,
{
    let mut text = String::from_str("DISCOVER_SERVER:");
    proof {
        reveal_strlit("DISCOVER_SERVER:");
        assert(text@ =~= announcement_word());
    }
    text.append(addr);
    text
}

/// Reads the text of a datagram. Where it begins with the announcement
/// word, gives the address that it announces; else nothing.
pub fn server_address(text: &str) -> (r: Option<String>)
    ensures
        r is Some <==> announcement_word().is_prefix_of(text@),
        match r {
            Some(addr) => announced(text@) == Some(addr@),
            None => announced(text@) is None,
        },
{
    let len: usize = text.unicode_len();
    if !word_at(text, len, 0) {
        assert(text@.skip(0) =~= text@);
        return None;
    }
    assert(text@.skip(0) =~= text@);
    let mut rest = String::new();
    let mut i: usize = 0;
    while i < len
        invariant
            i <= len,
            len == text@.len(),
            rest@ + without_word(text@.skip(i as int)) == without_word(text@),
        decreases len - i,
    {
        let ghost tail = text@.skip(i as int);
        if word_at(text, len, i) {
            assert(tail.skip(16) =~= text@.skip(i + 16));
            i += WORD_LENGTH;
        } else {
            let one = text.substring_char(i, i + 1);
            assert(one@ =~= seq![tail[0]]);
            assert(tail.skip(1) =~= text@.skip(i + 1));
            assert((rest@ + one@) + without_word(tail.skip(1)) =~= rest@ + (seq![tail[0]]
                + without_word(tail.skip(1))));
            rest.append(one);
            i += 1;
        }
    }
    assert(rest@ =~= without_word(text@)) by {
        assert(text@.skip(len as int).len() == 0);
    }
    let kept = rest.as_str();
    let end: usize = kept.unicode_len();
    let mut from: usize = 0;
    assert(kept@.skip(0) =~= kept@);
    while from < end && is_space(kept.get_char(from))
        invariant
            from <= end,
            end == kept@.len(),
            trim_start(kept@.skip(from as int)) == trim_start(kept@),
        decreases end - from,
    {
        assert(kept@.skip(from as int).skip(1) =~= kept@.skip(from + 1));
        from += 1;
    }
    let ghost started = kept@.skip(from as int);
    assert(started == trim_start(kept@));
    let mut to: usize = end;
    while to > from && is_space(kept.get_char(to - 1))
        invariant
            from <= to <= end,
            end == kept@.len(),
            started == kept@.skip(from as int),
            trim_end(kept@.subrange(from as int, to as int)) == trim_end(started),
        decreases to - from,
    {
        assert(kept@.subrange(from as int, to as int).drop_last() =~= kept@.subrange(
            from as int,
            to - 1,
        ));
        to -= 1;
    }
    assert(kept@.subrange(from as int, to as int) == trim_end(started));
    Some(String::from_str(kept.substring_char(from, to)))
}

/// An address that holds the announcement word nowhere and has no white
/// space at its ends is read back from its announcement as it is.
pub proof fn lemma_announcement_is_read(addr: Seq<char>)
    requires
        forall|i: int| 0 <= i <= addr.len() ==> !announcement_word().is_prefix_of(addr.skip(i)),
        addr.len() > 0 ==> !white(addr[0]) && !white(addr.last()),
    ensures
        announced(announcement_word() + addr) == Some(addr),
{
    let text = announcement_word() + addr;
    assert(text.subrange(0, 16) =~= announcement_word());
    assert(text.skip(16) =~= addr);
    lemma_word_free(addr, 0);
    assert(addr.skip(0) =~= addr);
}

/// A text in which the announcement word stands nowhere from the character
/// `at` on is kept whole from there.
proof fn lemma_word_free(s: Seq<char>, at: int)
    requires
        0 <= at <= s.len(),
        forall|i: int| 0 <= i <= s.len() ==> !announcement_word().is_prefix_of(s.skip(i)),
    ensures
        without_word(s.skip(at)) == s.skip(at),
    decreases s.len() - at,
{
    let tail = s.skip(at);
    if tail.len() > 0 {
        lemma_word_free(s, at + 1);
        assert(tail.skip(1) =~= s.skip(at + 1));
        assert(seq![tail[0]] + tail.skip(1) =~= tail);
    }
}

/// What a client is made from where an argument is left out: the values of
/// its configuration, as far as it gives them.
#[derive(Debug, Clone, PartialEq, Eq)]
pub struct ClientDefaults {
    /// The port on which announcements arrive.
    pub udp_port: Option<u16>,
    /// The port of the server's stream socket.
    pub tcp_port: Option<u16>,
    /// The size of the buffers.
    pub buffer_size: Option<usize>,
    /// The address of a server that is known beforehand.
    pub server_addr: Option<String>,
    /// The address to which the datagram socket is bound.
    pub udp_bind_addr: Option<String>,
}

/// The client of the MessagePack protocol: where it listens for
/// announcements, and the server that it has found.
#[derive(Debug, Clone, PartialEq, Eq)]
pub struct Client {
    /// The port on which announcements arrive.
    pub udp_port: u16,
    /// The port of the server's stream socket.
    pub tcp_port: u16,
    /// The size of the buffers for datagrams and for messages.
    pub buffer_size: usize,
    /// The address of the server, once one is known.
    pub server_addr: Option<String>,
    /// The address to which the datagram socket is bound, so that several
    /// clients can run on one machine.
    pub udp_bind_addr: String,
}

/// The text of an address that may be absent.
pub open spec fn text_of(addr: Option<String>) -> Option<Seq<char>> {
    match addr {
        Some(a) => Some(a@),
        None => None,
    }
}

impl Client {
    /// A client from the arguments that are given, and from the
    /// configuration for those that are not. The two ports have no other
    /// source: each is given or configured. The buffers have 1024 bytes
    /// where neither gives a size, and the datagram socket is bound to
    /// `0.0.0.0:0` where neither gives an address.
    pub fn new(
        udp_port: Option<u16>,
        tcp_port: Option<u16>,
        buffer_size: Option<usize>,
        server_addr: Option<String>,
        udp_bind_addr: Option<String>,
        configured: ClientDefaults,
    ) -> (client: Client)
        requires
            udp_port is Some || configured.udp_port is Some,
            tcp_port is Some || configured.tcp_port is Some,
        ensures
            client.udp_port == if let Some(p) = udp_port {
                p
            } else {
                configured.udp_port.unwrap()
            },
            client.tcp_port == if let Some(p) = tcp_port {
                p
            } else {
                configured.tcp_port.unwrap()
            },
            client.buffer_size == if let Some(n) = buffer_size {
                n
            } else if let Some(n) = configured.buffer_size {
                n
            } else {
                DEFAULT_BUFFER_SIZE
            },
            text_of(client.server_addr) == if server_addr is Some {
                text_of(server_addr)
            } else {
                text_of(configured.server_addr)
            },
            client.udp_bind_addr@ == if let Some(a) = udp_bind_addr {
                a@
            } else if let Some(a) = configured.udp_bind_addr {
                a@
            } else {
                any_address()
            },
    {
        let udp_port: u16 = match udp_port {
            Some(p) => p,
            None => configured.udp_port.unwrap(),
        };
        let tcp_port: u16 = match tcp_port {
            Some(p) => p,
            None => configured.tcp_port.unwrap(),
        };
        let buffer_size: usize = match buffer_size {
            Some(n) => n,
            None => match configured.buffer_size {
                Some(n) => n,
                None => DEFAULT_BUFFER_SIZE,
            },
        };
        let server_addr = match server_addr {
            Some(a) => Some(a),
            None => configured.server_addr,
        };
        let udp_bind_addr = match udp_bind_addr {
            Some(a) => a,
            None => match configured.udp_bind_addr {
                Some(a) => a,
                None => {
                    proof {
                        reveal_strlit("0.0.0.0:0");
                        assert("0.0.0.0:0"@ =~= any_address());
                    }
                    String::from_str("0.0.0.0:0")
                },
            },
        };
        Client { udp_port, tcp_port, buffer_size, server_addr, udp_bind_addr }
    }

    /// Takes the text of one datagram. An announcement makes its address
    /// the server's address and gives it back; any other text changes
    /// nothing.
    pub fn on_datagram(&mut self, text: &str) -> (r: Option<String>)
        ensures
            text_of(r) == announced(text@),
            final(self).udp_port == old(self).udp_port,
            final(self).tcp_port == old(self).tcp_port,
            final(self).buffer_size == old(self).buffer_size,
            final(self).udp_bind_addr == old(self).udp_bind_addr,
            text_of(final(self).server_addr) == if announced(text@) is Some {
                announced(text@)
            } else {
                text_of(old(self).server_addr)
            },
    {
        match server_address(text) {
            Some(addr) => {
                self.server_addr = Some(addr.clone());
                Some(addr)
            },
            None => None,
        }
    }
}

} // verus!
