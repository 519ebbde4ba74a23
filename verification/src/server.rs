//! The reactor's bookkeeping.
//!
//! One reactor owns the routing table and the session slab and decides,
//! for each readiness event the surrounding event loop observes, which
//! entity the token belongs to and how the session or table changes.
//! Tokens form one flat namespace: listener slots first, then one front
//! and one back token per session slot, so a token maps to at most one
//! endpoint for as long as that entity lives.

use vstd::prelude::*;

use crate::buffer::BUFFER_SIZE;
use crate::client::back_hup_step;
use crate::client::back_readable_step;
use crate::client::back_writable_step;
use crate::client::front_hup_step;
use crate::client::hup_frame;
use crate::client::readable_step;
use crate::client::writable_step;
use crate::client::Client;
use crate::client::ConnectionStatus;
use crate::client::Interest;
use crate::config::NotifyResult;
use crate::config::ServerConfiguration;
use crate::messages::ClientResult;
use crate::messages::TcpProxyOrder;
use crate::slab::Slab;

verus! {

/// What a readiness token designates.
#[derive(Clone, Copy, Debug, PartialEq, Eq, Structural)]
pub enum TokenTarget {
    /// A live listener: its slot in the listener slab.
    Listener(usize),
    /// The front endpoint of the live session in this slot.
    SessionFront(usize),
    /// The back endpoint of the live session in this slot.
    SessionBack(usize),
    /// No live entity.
    Unknown,
}

/// The proxy engine: routing table, session slab, and the shutdown
/// latch set by a stop command.
pub struct Server {
    configuration: ServerConfiguration,
    clients: Slab<Client>,
    max_listeners: usize,
    max_connections: usize,
    stopping: bool,
}

impl Server {
    pub closed spec fn spec_configuration(&self) -> ServerConfiguration {
        self.configuration
    }

    pub closed spec fn spec_clients(&self) -> Seq<Option<Client>> {
        self.clients@
    }

    pub closed spec fn spec_max_listeners(&self) -> int {
        self.max_listeners as int
    }

    pub closed spec fn spec_max_connections(&self) -> int {
        self.max_connections as int
    }

    pub closed spec fn spec_stopping(&self) -> bool {
        self.stopping
    }

    /// Token under which the front endpoint of session slot `i` is
    /// registered.
    pub open spec fn front_token_of(&self, i: int) -> int {
        self.spec_max_listeners() + i
    }

    /// Token under which the back endpoint of session slot `i` is
    /// registered.
    pub open spec fn back_token_of(&self, i: int) -> int {
        self.spec_max_listeners() + self.spec_max_connections() + i
    }

    /// Session slot `i` holds a live session.
    pub open spec fn session_at(&self, i: int) -> bool {
        0 <= i < self.spec_clients().len() && self.spec_clients()[i] is Some
    }

    pub open spec fn session(&self, i: int) -> Client {
        self.spec_clients()[i]->0
    }

    /// Session slot `i` can take a new session.
    pub open spec fn client_slot_free(&self, i: int) -> bool {
        (0 <= i < self.spec_clients().len() && self.spec_clients()[i] is None) || (i
            == self.spec_clients().len() && self.spec_clients().len()
            < self.spec_max_connections())
    }

    /// Reactor invariant: the table is well formed, the token ranges
    /// cannot collide, and every live session satisfies its own
    /// invariant and carries exactly the tokens of its slot.
    pub closed spec fn wf(&self) -> bool {
        &&& self.configuration.wf()
        &&& self.configuration.listeners.spec_capacity() == self.max_listeners
        &&& self.clients.wf()
        &&& self.clients.spec_capacity() == self.max_connections
        &&& self.spec_max_listeners() + 2 * self.spec_max_connections() <= usize::MAX
        &&& forall|i: int| #[trigger] self.session_at(i) ==> {
            &&& self.session(i).inv()
            &&& self.session(i).token == Some((self.max_listeners + i) as usize)
            &&& self.session(i).backend_token == Some(
                (self.max_listeners + self.max_connections + i) as usize,
            )
        }
    }

    /// A reactor over `configuration`, with room for `max_connections`
    /// sessions.
    pub fn new(max_listeners: usize, max_connections: usize, configuration: ServerConfiguration) -> (r:
        Server)
        requires
            configuration.wf(),
            configuration.listeners.spec_capacity() == max_listeners,
            max_listeners + 2 * max_connections <= usize::MAX,
        ensures
            r.wf(),
            r.spec_configuration() == configuration,
            r.spec_clients() == Seq::<Option<Client>>::empty(),
            r.spec_max_listeners() == max_listeners,
            r.spec_max_connections() == max_connections,
            !r.spec_stopping(),
    {
        Server {
            configuration,
            clients: Slab::new(max_connections),
            max_listeners,
            max_connections,
            stopping: false,
        }
    }

    /// The routing table, for bootstrap configuration by the caller.
    pub fn configuration(&mut self) -> (r: &mut ServerConfiguration)
        ensures
            *r == old(self).spec_configuration(),
            final(self).spec_configuration() == *final(r),
            final(self).spec_clients() == old(self).spec_clients(),
            final(self).spec_max_listeners() == old(self).spec_max_listeners(),
            final(self).spec_max_connections() == old(self).spec_max_connections(),
            final(self).spec_stopping() == old(self).spec_stopping(),
    {
        &mut self.configuration
    }

    pub fn is_stopping(&self) -> (r: bool)
        ensures
            r == self.spec_stopping(),
    {
        self.stopping
    }

    /// Dispatch a token to the entity it indexes, by slab membership.
    pub fn token_target(&self, token: usize) -> (r: TokenTarget)
        requires
            self.wf(),
        ensures
            match r {
                TokenTarget::Listener(t) => t == token
                    && self.spec_configuration().listeners.occupied(token as int),
                TokenTarget::SessionFront(i) => self.session_at(i as int) && token
                    == self.front_token_of(i as int),
                TokenTarget::SessionBack(i) => self.session_at(i as int) && token
                    == self.back_token_of(i as int),
                TokenTarget::Unknown => {
                    &&& (token < self.spec_max_listeners()
                        ==> !self.spec_configuration().listeners.occupied(token as int))
                    &&& (self.spec_max_listeners() <= token < self.spec_max_listeners()
                        + self.spec_max_connections() ==> !self.session_at(
                        token - self.spec_max_listeners(),
                    ))
                    &&& (self.spec_max_listeners() + self.spec_max_connections() <= token
                        < self.spec_max_listeners() + 2 * self.spec_max_connections()
                        ==> !self.session_at(
                        token - self.spec_max_listeners() - self.spec_max_connections(),
                    ))
                },
            },
    {
        if token < self.max_listeners {
            if self.configuration.listeners.contains(token) {
                TokenTarget::Listener(token)
            } else {
                TokenTarget::Unknown
            }
        } else if token < self.max_listeners + self.max_connections {
            let i = token - self.max_listeners;
            if self.clients.contains(i) {
                TokenTarget::SessionFront(i)
            } else {
                TokenTarget::Unknown
            }
        } else if token - self.max_listeners < 2 * self.max_connections {
            let i = token - self.max_listeners - self.max_connections;
            if self.clients.contains(i) {
                TokenTarget::SessionBack(i)
            } else {
                TokenTarget::Unknown
            }
        } else {
            TokenTarget::Unknown
        }
    }

    /// Place an accepted session, whose back-end connect succeeded,
    /// into the slab: it receives the tokens of its slot and both
    /// endpoints are to be registered — front readable, back writable.
    /// At capacity nothing changes and the caller drops the sockets.
    pub fn insert_accepted(&mut self, client: Client) -> (r: Option<(usize, usize)>)
        requires
            old(self).wf(),
            client.inv(),
            client.status == ConnectionStatus::Initial,
            client.token is None,
            client.backend_token is None,
            client.front_buf@.len() == 0,
            client.back_buf@.len() == 0,
            client.back_connecting,
        ensures
            final(self).wf(),
            final(self).spec_configuration() == old(self).spec_configuration(),
            final(self).spec_stopping() == old(self).spec_stopping(),
            final(self).spec_max_listeners() == old(self).spec_max_listeners(),
            final(self).spec_max_connections() == old(self).spec_max_connections(),
            r is None ==> *final(self) == *old(self) && old(self).spec_clients().len()
                == old(self).spec_max_connections() && (forall|j: int|
                0 <= j < old(self).spec_clients().len() ==> old(self).spec_clients()[j] is Some),
            r matches Some((ft, bt)) ==> {
                let i = ft - old(self).spec_max_listeners();
                &&& ft == old(self).front_token_of(i)
                &&& bt == old(self).back_token_of(i)
                &&& old(self).client_slot_free(i)
                &&& final(self).session_at(i)
                &&& (forall|j: int|
                    0 <= j < old(self).spec_clients().len() && j != i
                        ==> final(self).spec_clients()[j] == old(self).spec_clients()[j])
                &&& final(self).spec_clients().len() == (if i < old(self).spec_clients().len() {
                    old(self).spec_clients().len() as int
                } else {
                    i + 1
                })
                &&& final(self).session(i).status == ConnectionStatus::ClientConnected
                &&& final(self).session(i).accept_token == client.accept_token
                &&& final(self).session(i).front_read == client.front_read
                &&& final(self).session(i).back_read == client.back_read
                &&& final(self).session(i).front_buf@ == client.front_buf@
                &&& final(self).session(i).back_buf@ == client.back_buf@
                &&& final(self).session(i).rx_count == client.rx_count
                &&& final(self).session(i).tx_count == client.tx_count
                &&& final(self).session(i).front_interest == (Interest {
                    readable: true,
                    writable: false,
                })
                &&& final(self).session(i).back_interest.writable
            },
    {
        match self.clients.peek_free() {
            Some(i) => {
                let mut c = client;
                let ft = self.max_listeners + i;
                let bt = self.max_listeners + self.max_connections + i;
                c.set_tokens(ft, bt);
                c.connect_established();
                self.clients.insert_at(i, c);
                proof {
                    assert forall|j: int| #[trigger] self.session_at(j) implies {
                        &&& self.session(j).inv()
                        &&& self.session(j).token == Some((self.max_listeners + j) as usize)
                        &&& self.session(j).backend_token == Some(
                            (self.max_listeners + self.max_connections + j) as usize,
                        )
                    } by {
                        if j != i as int {
                            assert(old(self).session_at(j));
                            assert(self.session(j) == old(self).session(j));
                        }
                    }
                }
                Some((ft, bt))
            },
            None => None,
        }
    }

    /// Shared frame of every session handler: only slot `i` changes,
    /// and stays live.
    pub open spec fn session_frame(&self, post: Server, i: int) -> bool {
        &&& post.spec_configuration() == self.spec_configuration()
        &&& post.spec_stopping() == self.spec_stopping()
        &&& post.spec_max_listeners() == self.spec_max_listeners()
        &&& post.spec_max_connections() == self.spec_max_connections()
        &&& post.spec_clients() == self.spec_clients().update(i, post.spec_clients()[i])
        &&& post.session_at(i)
    }

    /// Bytes arrived on the front socket of session `i`; empty `data`
    /// records a read that would have blocked.
    pub fn front_readable(&mut self, i: usize, data: &[u8]) -> (r: ClientResult)
        requires
            old(self).wf(),
            old(self).session_at(i as int),
            old(self).session(i as int).front_interest.readable,
            data@.len() <= BUFFER_SIZE,
            old(self).session(i as int).rx_count + data@.len() <= usize::MAX,
        ensures
            final(self).wf(),
            old(self).session_frame(*final(self), i as int),
            readable_step(old(self).session(i as int), final(self).session(i as int), data@, r),
    {
        let mut c = self.clients.take_at(i);
        let r = c.readable(data);
        self.clients.set_at(i, c);
        proof {
            assert(self.spec_clients() =~= old(self).spec_clients().update(
                i as int,
                self.spec_clients()[i as int],
            ));
            assert forall|j: int| #[trigger] self.session_at(j) implies {
                &&& self.session(j).inv()
                &&& self.session(j).token == Some((self.max_listeners + j) as usize)
                &&& self.session(j).backend_token == Some(
                    (self.max_listeners + self.max_connections + j) as usize,
                )
            } by {
                if j != i as int {
                    assert(old(self).session_at(j));
                    assert(self.session(j) == old(self).session(j));
                }
            }
        }
        r
    }

    /// The back socket of session `i` accepted `n` pending bytes.
    pub fn back_writable(&mut self, i: usize, n: usize) -> (r: ClientResult)
        requires
            old(self).wf(),
            old(self).session_at(i as int),
            old(self).session(i as int).back_interest.writable,
            n <= old(self).session(i as int).front_buf@.len(),
        ensures
            final(self).wf(),
            old(self).session_frame(*final(self), i as int),
            back_writable_step(
                old(self).session(i as int),
                final(self).session(i as int),
                n as int,
                r,
            ),
    {
        let mut c = self.clients.take_at(i);
        let r = c.back_writable(n);
        self.clients.set_at(i, c);
        proof {
            assert(self.spec_clients() =~= old(self).spec_clients().update(
                i as int,
                self.spec_clients()[i as int],
            ));
            assert forall|j: int| #[trigger] self.session_at(j) implies {
                &&& self.session(j).inv()
                &&& self.session(j).token == Some((self.max_listeners + j) as usize)
                &&& self.session(j).backend_token == Some(
                    (self.max_listeners + self.max_connections + j) as usize,
                )
            } by {
                if j != i as int {
                    assert(old(self).session_at(j));
                    assert(self.session(j) == old(self).session(j));
                }
            }
        }
        r
    }

    /// Bytes arrived on the back socket of session `i`.
    pub fn back_readable(&mut self, i: usize, data: &[u8]) -> (r: ClientResult)
        requires
            old(self).wf(),
            old(self).session_at(i as int),
            old(self).session(i as int).back_interest.readable,
            data@.len() <= BUFFER_SIZE,
        ensures
            final(self).wf(),
            old(self).session_frame(*final(self), i as int),
            back_readable_step(
                old(self).session(i as int),
                final(self).session(i as int),
                data@,
                r,
            ),
    {
        let mut c = self.clients.take_at(i);
        let r = c.back_readable(data);
        self.clients.set_at(i, c);
        proof {
            assert(self.spec_clients() =~= old(self).spec_clients().update(
                i as int,
                self.spec_clients()[i as int],
            ));
            assert forall|j: int| #[trigger] self.session_at(j) implies {
                &&& self.session(j).inv()
                &&& self.session(j).token == Some((self.max_listeners + j) as usize)
                &&& self.session(j).backend_token == Some(
                    (self.max_listeners + self.max_connections + j) as usize,
                )
            } by {
                if j != i as int {
                    assert(old(self).session_at(j));
                    assert(self.session(j) == old(self).session(j));
                }
            }
        }
        r
    }

    /// The front socket of session `i` accepted `n` pending bytes.
    pub fn front_writable(&mut self, i: usize, n: usize) -> (r: ClientResult)
        requires
            old(self).wf(),
            old(self).session_at(i as int),
            old(self).session(i as int).front_interest.writable,
            n <= old(self).session(i as int).back_buf@.len(),
            old(self).session(i as int).tx_count + n <= usize::MAX,
        ensures
            final(self).wf(),
            old(self).session_frame(*final(self), i as int),
            writable_step(old(self).session(i as int), final(self).session(i as int), n as int, r),
    {
        let mut c = self.clients.take_at(i);
        let r = c.writable(n);
        self.clients.set_at(i, c);
        proof {
            assert(self.spec_clients() =~= old(self).spec_clients().update(
                i as int,
                self.spec_clients()[i as int],
            ));
            assert forall|j: int| #[trigger] self.session_at(j) implies {
                &&& self.session(j).inv()
                &&& self.session(j).token == Some((self.max_listeners + j) as usize)
                &&& self.session(j).backend_token == Some(
                    (self.max_listeners + self.max_connections + j) as usize,
                )
            } by {
                if j != i as int {
                    assert(old(self).session_at(j));
                    assert(self.session(j) == old(self).session(j));
                }
            }
        }
        r
    }

    /// The client of session `i` closed its write side.
    pub fn front_hup(&mut self, i: usize) -> (r: ClientResult)
        requires
            old(self).wf(),
            old(self).session_at(i as int),
            old(self).session(i as int).status != ConnectionStatus::Closed,
        ensures
            final(self).wf(),
            old(self).session_frame(*final(self), i as int),
            front_hup_step(old(self).session(i as int), final(self).session(i as int), r),
    {
        let mut c = self.clients.take_at(i);
        let r = c.front_hup();
        self.clients.set_at(i, c);
        proof {
            assert(self.spec_clients() =~= old(self).spec_clients().update(
                i as int,
                self.spec_clients()[i as int],
            ));
            assert forall|j: int| #[trigger] self.session_at(j) implies {
                &&& self.session(j).inv()
                &&& self.session(j).token == Some((self.max_listeners + j) as usize)
                &&& self.session(j).backend_token == Some(
                    (self.max_listeners + self.max_connections + j) as usize,
                )
            } by {
                if j != i as int {
                    assert(old(self).session_at(j));
                    assert(self.session(j) == old(self).session(j));
                }
            }
        }
        r
    }

    /// The back end of session `i` closed its write side.
    pub fn back_hup(&mut self, i: usize) -> (r: ClientResult)
        requires
            old(self).wf(),
            old(self).session_at(i as int),
            old(self).session(i as int).status != ConnectionStatus::Closed,
        ensures
            final(self).wf(),
            old(self).session_frame(*final(self), i as int),
            back_hup_step(old(self).session(i as int), final(self).session(i as int), r),
    {
        let mut c = self.clients.take_at(i);
        let r = c.back_hup();
        self.clients.set_at(i, c);
        proof {
            assert(self.spec_clients() =~= old(self).spec_clients().update(
                i as int,
                self.spec_clients()[i as int],
            ));
            assert forall|j: int| #[trigger] self.session_at(j) implies {
                &&& self.session(j).inv()
                &&& self.session(j).token == Some((self.max_listeners + j) as usize)
                &&& self.session(j).backend_token == Some(
                    (self.max_listeners + self.max_connections + j) as usize,
                )
            } by {
                if j != i as int {
                    assert(old(self).session_at(j));
                    assert(self.session(j) == old(self).session(j));
                }
            }
        }
        r
    }

    /// An unrecoverable error on either socket of session `i`.
    pub fn socket_error(&mut self, i: usize)
        requires
            old(self).wf(),
            old(self).session_at(i as int),
        ensures
            final(self).wf(),
            old(self).session_frame(*final(self), i as int),
            final(self).session(i as int).status == ConnectionStatus::Closed,
            hup_frame(old(self).session(i as int), final(self).session(i as int)),
    {
        let mut c = self.clients.take_at(i);
        c.socket_error();
        self.clients.set_at(i, c);
        proof {
            assert(self.spec_clients() =~= old(self).spec_clients().update(
                i as int,
                self.spec_clients()[i as int],
            ));
            assert forall|j: int| #[trigger] self.session_at(j) implies {
                &&& self.session(j).inv()
                &&& self.session(j).token == Some((self.max_listeners + j) as usize)
                &&& self.session(j).backend_token == Some(
                    (self.max_listeners + self.max_connections + j) as usize,
                )
            } by {
                if j != i as int {
                    assert(old(self).session_at(j));
                    assert(self.session(j) == old(self).session(j));
                }
            }
        }
    }

    /// Release session slot `i` after teardown.  Its tokens become
    /// available again only through this removal.
    pub fn remove_client(&mut self, i: usize) -> (r: Option<Client>)
        requires
            old(self).wf(),
        ensures
            final(self).wf(),
            final(self).spec_configuration() == old(self).spec_configuration(),
            final(self).spec_stopping() == old(self).spec_stopping(),
            final(self).spec_max_listeners() == old(self).spec_max_listeners(),
            final(self).spec_max_connections() == old(self).spec_max_connections(),
            old(self).session_at(i as int) ==> r == Some(old(self).session(i as int))
                && final(self).spec_clients() == old(self).spec_clients().update(i as int, None),
            !old(self).session_at(i as int) ==> r is None && final(self).spec_clients()
                == old(self).spec_clients(),
    {
        let r = self.clients.remove(i);
        proof {
            assert forall|j: int| #[trigger] self.session_at(j) implies {
                &&& self.session(j).inv()
                &&& self.session(j).token == Some((self.max_listeners + j) as usize)
                &&& self.session(j).backend_token == Some(
                    (self.max_listeners + self.max_connections + j) as usize,
                )
            } by {
                assert(old(self).session_at(j));
                assert(self.session(j) == old(self).session(j));
            }
        }
        r
    }

    /// A look at session `i`, for the event loop to read interests,
    /// pending bytes and counters from.
    pub fn client(&self, i: usize) -> (r: Option<&Client>)
        ensures
            match r {
                Some(c) => self.session_at(i as int) && *c == self.session(i as int),
                None => !self.session_at(i as int),
            },
    {
        self.clients.get(i)
    }

    /// Apply one control command; see
    /// [`ServerConfiguration::notify`].  A stop command latches the
    /// shutdown flag and the event loop exits without draining
    /// sessions.
    pub fn notify(&mut self, message: TcpProxyOrder, bound: bool) -> (r: NotifyResult)
        requires
            old(self).wf(),
        ensures
            final(self).wf(),
            final(self).spec_clients() == old(self).spec_clients(),
            final(self).spec_max_listeners() == old(self).spec_max_listeners(),
            final(self).spec_max_connections() == old(self).spec_max_connections(),
            crate::config::notify_relates(
                old(self).spec_configuration(),
                final(self).spec_configuration(),
                message,
                bound,
                r,
            ),
            final(self).spec_stopping() == (old(self).spec_stopping() || r.stop),
    {
        let r = self.configuration.notify(message, bound);
        if r.stop {
            self.stopping = true;
        }
        proof {
            assert forall|j: int| #[trigger] self.session_at(j) implies {
                &&& self.session(j).inv()
                &&& self.session(j).token == Some((self.max_listeners + j) as usize)
                &&& self.session(j).backend_token == Some(
                    (self.max_listeners + self.max_connections + j) as usize,
                )
            } by {
                assert(old(self).session_at(j));
                assert(self.session(j) == old(self).session(j));
            }
        }
        r
    }
}

/// Slab stability, seen from the token side: two live sessions never
/// share a token, and front and back namespaces never overlap, so a
/// readiness event is attributed to exactly one endpoint of exactly one
/// session.
pub proof fn lemma_token_uniqueness(s: Server, i: int, j: int)
    requires
        s.wf(),
        s.session_at(i),
        s.session_at(j),
        i != j,
    ensures
        s.front_token_of(i) != s.front_token_of(j),
        s.back_token_of(i) != s.back_token_of(j),
        s.front_token_of(i) != s.back_token_of(j),
        s.session(i).token != s.session(j).token,
        s.session(i).backend_token != s.session(j).backend_token,
{
}

/// No cross-talk: the bytes a session hands to its back end are drawn
/// exclusively from its own front socket — they are exactly the oldest
/// part of its own read history, whichever other sessions live in the
/// reactor; and symmetrically for the bytes handed to its front.
pub proof fn lemma_no_cross_talk(s: Server, i: int)
    requires
        s.wf(),
        s.session_at(i),
    ensures
        s.session(i).back_written@ == s.session(i).front_read@.take(
            s.session(i).front_read@.len() - s.session(i).front_buf@.len(),
        ),
        s.session(i).front_written@ == s.session(i).back_read@.take(
            s.session(i).back_read@.len() - s.session(i).back_buf@.len(),
        ),
{
    crate::client::lemma_byte_fidelity_front_to_back(s.session(i));
    assert(s.session(i).front_written@ =~= s.session(i).back_read@.take(
        s.session(i).back_read@.len() - s.session(i).back_buf@.len(),
    ));
}

} // verus!
