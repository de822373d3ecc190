//! The sessions that a server has open, by the address of the peer, and what
//! the server awaits from each.

use crate::channel::PeerAddr;
use crate::error::ProtocolError;
use crate::header::Command;
use vstd::prelude::*;

verus! {

/// What the server knows of one connection.
#[derive(Debug, Clone, PartialEq, Eq)]
pub struct ClientSession {
    /// The address of the peer.
    pub addr: PeerAddr,
    /// Whether the peer has completed the handshake.
    pub authenticated: bool,
    /// The names of the channels that the peer has open.
    pub open_channels: Vec<String>,
    /// The command that the server sent last, if it sent one.
    pub last_sent_request: Option<Command>,
    /// The command that the server awaits from the peer; `None` when idle.
    pub expected_response: Option<Command>,
}

/// Whether there is a session of that peer.
pub open spec fn has_client(clients: Seq<ClientSession>, addr: PeerAddr) -> bool {
    exists|i: int| 0 <= i < clients.len() && (#[trigger] clients[i]).addr.same(addr)
}

/// Whether the session is one that was just opened for that peer.
pub open spec fn fresh_session(c: ClientSession, addr: PeerAddr) -> bool {
    &&& c.addr == addr
    &&& !c.authenticated
    &&& c.open_channels@.len() == 0
    &&& c.last_sent_request is None
    &&& c.expected_response is None
}

/// The sessions of a server.
#[derive(Debug, Clone, PartialEq, Eq)]
pub struct ClientManager {
    clients: Vec<ClientSession>,
}

impl ClientManager {
    /// The sessions in the order in which they were added.
    pub closed spec fn clients(self) -> Seq<ClientSession> {
        self.clients@
    }

    /// No peer has two sessions.
    pub open spec fn wf(self) -> bool {
        forall|i: int, j: int|
            0 <= i < j < self.clients().len() ==> !(#[trigger] self.clients()[i]).addr.same(
                (#[trigger] self.clients()[j]).addr,
            )
    }

    /// Whether the sessions are those of `before` but for the session at
    /// `i`, which is still the session of the same peer.
    pub open spec fn only_changed(self, before: ClientManager, i: int) -> bool {
        &&& self.clients().len() == before.clients().len()
        &&& forall|j: int|
            0 <= j < self.clients().len() && j != i ==> #[trigger] self.clients()[j]
                == before.clients()[j]
        &&& 0 <= i < self.clients().len() ==> self.clients()[i].addr.same(
            before.clients()[i].addr,
        )
    }

    /// A server without sessions.
    pub fn new() -> (m: ClientManager)
        ensures
            m.wf(),
            m.clients().len() == 0,
    {
        ClientManager { clients: Vec::new() }
    }

    /// How many sessions there are.
    pub fn len(&self) -> (n: usize)
        ensures
            n == self.clients().len(),
    {
        self.clients.len()
    }

    fn position(&self, addr: &PeerAddr) -> (r: Option<usize>)
        ensures
            r is Some <==> has_client(self.clients(), *addr),
            r matches Some(i) ==> i < self.clients().len() && self.clients()[i as int].addr.same(
                *addr,
            ),
    {
        let mut i: usize = 0;
        while i < self.clients.len()
            invariant
                i <= self.clients.len(),
                forall|j: int| 0 <= j < i ==> !(#[trigger] self.clients@[j]).addr.same(*addr),
            decreases self.clients.len() - i,
        {
            if self.clients[i].addr.is_same(addr) {
                return Some(i);
            }
            i = i + 1;
        }
        None
    }

    /// The session of that peer, if there is one.
    pub fn get(&self, addr: &PeerAddr) -> (r: Option<&ClientSession>)
        ensures
            r is Some <==> has_client(self.clients(), *addr),
            r matches Some(c) ==> c.addr.same(*addr) && exists|i: int|
                0 <= i < self.clients().len() && #[trigger] self.clients()[i] == *c,
    {
        match self.position(addr) {
            Some(i) => Some(&self.clients[i]),
            None => None,
        }
    }

    /// Opens a session for that peer: not authenticated, no channel open,
    /// nothing sent and nothing awaited. A session that the peer had before
    /// is replaced.
    pub fn add_client(&mut self, addr: PeerAddr)
        requires
            old(self).wf(),
        ensures
            final(self).wf(),
            has_client(final(self).clients(), addr),
            has_client(old(self).clients(), addr) ==> exists|i: int|
                0 <= i < old(self).clients().len() && (#[trigger] old(self).clients()[i]).addr.same(
                    addr,
                ) && final(self).only_changed(*old(self), i) && fresh_session(
                    final(self).clients()[i],
                    addr,
                ),
            !has_client(old(self).clients(), addr) ==> final(self).clients().len() == old(self).clients().len() + 1 && final(self).clients().take(
                old(self).clients().len() as int,
            ) == old(self).clients() && fresh_session(final(self).clients().last(), addr),
    {
        let fresh = ClientSession {
            addr,
            authenticated: false,
            open_channels: Vec::new(),
            last_sent_request: None,
            expected_response: None,
        };
        match self.position(&addr) {
            Some(i) => {
                let ghost before = self.clients@;
                self.clients[i] = fresh;
                proof {
                    assert forall|a: int, b: int| 0 <= a < b < self.clients@.len() implies !(
                    #[trigger] self.clients@[a]).addr.same((#[trigger] self.clients@[b]).addr) by {
                        assert(self.clients@[a].addr.same(before[a].addr));
                        assert(self.clients@[b].addr.same(before[b].addr));
                        assert(!before[a].addr.same(before[b].addr));
                    }
                    assert(self.clients@[i as int].addr.same(addr));
                }
            },
            None => {
                let ghost before = self.clients@;
                self.clients.push(fresh);
                proof {
                    assert(self.clients@.take(before.len() as int) =~= before);
                    assert forall|a: int, b: int| 0 <= a < b < self.clients@.len() implies !(
                    #[trigger] self.clients@[a]).addr.same((#[trigger] self.clients@[b]).addr) by {
                        assert(self.clients@[a] == before[a]);
                        if b < before.len() {
                            assert(self.clients@[b] == before[b]);
                        }
                    }
                    assert(self.clients@[before.len() as int].addr.same(addr));
                }
            },
        }
    }

    /// Closes the session of that peer, if there is one; the other sessions
    /// keep their order.
    pub fn remove_client(&mut self, addr: &PeerAddr) -> (r: bool)
        requires
            old(self).wf(),
        ensures
            final(self).wf(),
            r == has_client(old(self).clients(), *addr),
            !has_client(final(self).clients(), *addr),
            !r ==> *final(self) == *old(self),
            r ==> exists|i: int|
                0 <= i < old(self).clients().len() && (#[trigger] old(self).clients()[i]).addr.same(
                    *addr,
                ) && final(self).clients() == old(self).clients().remove(i),
    {
        match self.position(addr) {
            None => false,
            Some(i) => {
                let ghost before = self.clients@;
                let _ = self.clients.remove(i);
                proof {
                    assert(self.clients@ == before.remove(i as int));
                    assert forall|j: int| 0 <= j < self.clients@.len() implies !(
                    #[trigger] self.clients@[j]).addr.same(*addr) by {
                        if j < i {
                            assert(self.clients@[j] == before[j]);
                            assert(!before[j].addr.same(before[i as int].addr));
                        } else {
                            assert(self.clients@[j] == before[j + 1]);
                            assert(!before[i as int].addr.same(before[j + 1].addr));
                        }
                    }
                    assert forall|a: int, b: int| 0 <= a < b < self.clients@.len() implies !(
                    #[trigger] self.clients@[a]).addr.same((#[trigger] self.clients@[b]).addr) by {
                        let a0 = if a < i {
                            a
                        } else {
                            a + 1
                        };
                        let b0 = if b < i {
                            b
                        } else {
                            b + 1
                        };
                        assert(self.clients@[a] == before[a0]);
                        assert(self.clients@[b] == before[b0]);
                        assert(!before[a0].addr.same(before[b0].addr));
                    }
                }
                true
            },
        }
    }

    /// Marks the session of that peer as authenticated. Says whether there
    /// is such a session.
    pub fn authenticate_client(&mut self, addr: &PeerAddr) -> (r: bool)
        requires
            old(self).wf(),
        ensures
            final(self).wf(),
            r == has_client(old(self).clients(), *addr),
            !r ==> *final(self) == *old(self),
            r ==> exists|i: int|
                0 <= i < old(self).clients().len() && (#[trigger] old(self).clients()[i]).addr.same(
                    *addr,
                ) && final(self).only_changed(*old(self), i) && final(self).clients()[i] == (
                ClientSession { authenticated: true, ..old(self).clients()[i] }),
    {
        match self.position(addr) {
            None => false,
            Some(i) => {
                let ghost before = self.clients@;
                self.clients[i].authenticated = true;
                proof {
                    self.lemma_kept(before, i as int);
                }
                true
            },
        }
    }

    /// Notes that the command `expected` was sent to that peer and that its
    /// reply is awaited. Says whether there is such a session.
    pub fn set_expected_response(&mut self, addr: &PeerAddr, expected: Command) -> (r: bool)
        requires
            old(self).wf(),
        ensures
            final(self).wf(),
            r == has_client(old(self).clients(), *addr),
            !r ==> *final(self) == *old(self),
            r ==> exists|i: int|
                0 <= i < old(self).clients().len() && (#[trigger] old(self).clients()[i]).addr.same(
                    *addr,
                ) && final(self).only_changed(*old(self), i) && final(self).clients()[i] == (
                ClientSession {
                    last_sent_request: Some(expected),
                    expected_response: Some(expected),
                    ..old(self).clients()[i]
                }),
    {
        match self.position(addr) {
            None => false,
            Some(i) => {
                let ghost before = self.clients@;
                self.clients[i].last_sent_request = Some(expected);
                self.clients[i].expected_response = Some(expected);
                proof {
                    self.lemma_kept(before, i as int);
                }
                true
            },
        }
    }

    /// Whether `response` is the command that is awaited from that peer.
    /// Where it is, nothing is awaited from the peer any longer; else
    /// nothing changes.
    pub fn verify_response(&mut self, addr: &PeerAddr, response: Command) -> (r: bool)
        requires
            old(self).wf(),
        ensures
            final(self).wf(),
            r == exists|i: int|
                0 <= i < old(self).clients().len() && (#[trigger] old(self).clients()[i]).addr.same(
                    *addr,
                ) && old(self).clients()[i].expected_response == Some(response),
            !r ==> *final(self) == *old(self),
            r ==> exists|i: int|
                0 <= i < old(self).clients().len() && (#[trigger] old(self).clients()[i]).addr.same(
                    *addr,
                ) && final(self).only_changed(*old(self), i) && final(self).clients()[i] == (
                ClientSession { expected_response: None, ..old(self).clients()[i] }),
    {
        match self.position(addr) {
            None => false,
            Some(i) => {
                let awaited: bool = match self.clients[i].expected_response {
                    Some(c) => c.code() == response.code(),
                    None => false,
                };
                proof {
                    crate::header::lemma_command_code(response);
                    if self.clients@[i as int].expected_response is Some {
                        crate::header::lemma_command_code(
                            self.clients@[i as int].expected_response.unwrap(),
                        );
                    }
                    self.lemma_unique(i as int, *addr);
                }
                if !awaited {
                    return false;
                }
                let ghost before = self.clients@;
                self.clients[i].expected_response = None;
                proof {
                    self.lemma_kept(before, i as int);
                }
                true
            },
        }
    }

    /// Holds a command that arrived from that peer against what is awaited
    /// from it. Where nothing is awaited, or the command is the awaited one,
    /// the command is in order and nothing is awaited any longer. Where
    /// another command is awaited, the session is closed: it is removed.
    pub fn on_command(&mut self, addr: &PeerAddr, command: Command) -> (r: Result<
        (),
        ProtocolError,
    >)
        requires
            old(self).wf(),
        ensures
            final(self).wf(),
            r is Err <==> exists|i: int|
                0 <= i < old(self).clients().len() && (#[trigger] old(self).clients()[i]).addr.same(
                    *addr,
                ) && old(self).clients()[i].expected_response is Some && old(self).clients()[i].expected_response != Some(command),
            r matches Err(e) ==> e == ProtocolError::UnexpectedCommand && !has_client(
                final(self).clients(),
                *addr,
            ),
            r is Ok ==> forall|i: int|
                0 <= i < final(self).clients().len() && (#[trigger] final(self).clients()[i]).addr.same(*addr) ==> final(self).clients()[i].expected_response
                    is None,
    {
        match self.position(addr) {
            None => Ok(()),
            Some(i) => {
                proof {
                    self.lemma_unique(i as int, *addr);
                }
                match self.clients[i].expected_response {
                    None => Ok(()),
                    Some(c) => {
                        proof {
                            crate::header::lemma_command_code(command);
                            crate::header::lemma_command_code(c);
                        }
                        if c.code() == command.code() {
                            let ghost before = self.clients@;
                            self.clients[i].expected_response = None;
                            proof {
                                self.lemma_kept(before, i as int);
                                self.lemma_unique(i as int, *addr);
                            }
                            Ok(())
                        } else {
                            let _ = self.remove_client(addr);
                            Err(ProtocolError::UnexpectedCommand)
                        }
                    },
                }
            },
        }
    }

    proof fn lemma_kept(self, before: Seq<ClientSession>, i: int)
        requires
            0 <= i < before.len(),
            self.clients@.len() == before.len(),
            forall|j: int| 0 <= j < before.len() && j != i ==> self.clients@[j] == before[j],
            self.clients@[i].addr.same(before[i].addr),
            forall|a: int, b: int|
                0 <= a < b < before.len() ==> !(#[trigger] before[a]).addr.same(
                    (#[trigger] before[b]).addr,
                ),
        ensures
            self.wf(),
    {
        assert forall|a: int, b: int| 0 <= a < b < self.clients@.len() implies !(
        #[trigger] self.clients@[a]).addr.same((#[trigger] self.clients@[b]).addr) by {
            assert(self.clients@[a].addr.same(before[a].addr));
            assert(self.clients@[b].addr.same(before[b].addr));
            assert(!before[a].addr.same(before[b].addr));
        }
    }

    proof fn lemma_unique(self, i: int, addr: PeerAddr)
        requires
            self.wf(),
            0 <= i < self.clients@.len(),
            self.clients@[i].addr.same(addr),
        ensures
            forall|j: int|
                0 <= j < self.clients@.len() && (#[trigger] self.clients@[j]).addr.same(addr) ==> j
                    == i,
    {
        assert forall|j: int|
            0 <= j < self.clients@.len() && (#[trigger] self.clients@[j]).addr.same(
                addr,
            ) implies j == i by {
            if j < i {
                assert(!self.clients@[j].addr.same(self.clients@[i].addr));
            } else if i < j {
                assert(!self.clients@[i].addr.same(self.clients@[j].addr));
            }
        }
    }
}

} // verus!
