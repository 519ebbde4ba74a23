//! Per-session relay state.
//!
//! A session couples one client-facing (front) socket with one back-end
//! socket and relays bytes in both directions through two fixed-capacity
//! buffers.  The surrounding program performs the socket reads and
//! writes; each handler here takes the outcome of one such operation,
//! accounts for the bytes moved, drives the half-close state machine and
//! recomputes the interest sets under which both endpoints must be
//! re-registered.
//!
//! The sequences of bytes that crossed the session are kept as ghost
//! history, so the contracts can state byte fidelity: what went out to
//! one side is exactly the oldest part of what came in from the other.

use vstd::prelude::*;

use crate::buffer::BUFFER_SIZE;
use crate::buffer::Buffer;
use crate::messages::ClientResult;

verus! {

/// Lifecycle of a session, driven by connects, byte transfers and
/// half-closes.
#[derive(Clone, Copy, Debug, PartialEq, Eq, Structural)]
pub enum ConnectionStatus {
    Initial,
    ClientConnected,
    Connected,
    ClientClosed,
    ServerClosed,
    Closed,
}

/// Readiness a socket is to be registered for, edge-triggered and
/// one-shot: the handlers recompute it after every event.
#[derive(Clone, Copy, Debug, PartialEq, Eq, Structural)]
pub struct Interest {
    pub readable: bool,
    pub writable: bool,
}

/// More bytes may be read from the front socket in this state: the back
/// end can still receive them.
pub open spec fn front_read_ok(s: ConnectionStatus) -> bool {
    s == ConnectionStatus::ClientConnected || s == ConnectionStatus::Connected
        || s == ConnectionStatus::ServerClosed
}

/// More bytes may be read from the back socket in this state: the client
/// can still receive them.
pub open spec fn back_read_ok(s: ConnectionStatus) -> bool {
    s == ConnectionStatus::ClientConnected || s == ConnectionStatus::Connected
        || s == ConnectionStatus::ClientClosed
}

/// One proxied connection: its buffers, tokens, interest sets, status
/// and byte counters.
pub struct Client {
    /// Bytes read from the front socket, pending write to the back.
    pub front_buf: Buffer,
    /// Bytes read from the back socket, pending write to the front.
    pub back_buf: Buffer,
    /// Token of the front endpoint once the session is in the slab.
    pub token: Option<usize>,
    /// Token of the back endpoint once the session is in the slab.
    pub backend_token: Option<usize>,
    /// Token of the listener that accepted this session.
    pub accept_token: usize,
    pub front_interest: Interest,
    pub back_interest: Interest,
    pub status: ConnectionStatus,
    /// Back connect is in flight: keep the back endpoint
    /// writable-interested so its completion is observed.
    pub back_connecting: bool,
    /// Bytes read from the front socket, in total.
    pub rx_count: usize,
    /// Bytes written to the front socket, in total.
    pub tx_count: usize,
    /// History: every byte accepted from the front socket.
    pub front_read: Ghost<Seq<u8>>,
    /// History: every byte handed to the back socket.
    pub back_written: Ghost<Seq<u8>>,
    /// History: every byte accepted from the back socket.
    pub back_read: Ghost<Seq<u8>>,
    /// History: every byte handed to the front socket.
    pub front_written: Ghost<Seq<u8>>,
}

impl Client {
    /// The registered interest sets are determined by the buffers and the
    /// status: an endpoint is readable-interested exactly when the buffer
    /// it feeds is drained and its bytes are still deliverable, and
    /// writable-interested exactly when bytes are pending towards it
    /// (or its connect is still being awaited).
    pub open spec fn interests_ok(&self) -> bool {
        &&& self.front_interest.readable == (self.front_buf@.len() == 0
            && front_read_ok(self.status))
        &&& self.front_interest.writable == (self.back_buf@.len() > 0)
        &&& self.back_interest.readable == (self.back_buf@.len() == 0
            && back_read_ok(self.status))
        &&& self.back_interest.writable == (self.front_buf@.len() > 0
            || (self.back_connecting && self.status == ConnectionStatus::ClientConnected))
    }

    /// Session invariant: buffer bounds, the interest discipline, and
    /// byte fidelity in both directions — the bytes handed to each sink,
    /// followed by the bytes still buffered, are exactly the bytes read
    /// from the matching source, in order.
    pub open spec fn inv(&self) -> bool {
        &&& self.front_buf.wf()
        &&& self.back_buf.wf()
        &&& self.interests_ok()
        &&& self.front_read@ == self.back_written@ + self.front_buf@
        &&& self.back_read@ == self.front_written@ + self.back_buf@
        &&& self.rx_count == self.front_read@.len()
        &&& self.tx_count == self.front_written@.len()
    }
}

/// Both fields that identify the session are untouched.
pub open spec fn same_identity(pre: Client, post: Client) -> bool {
    &&& post.token == pre.token
    &&& post.backend_token == pre.backend_token
    &&& post.accept_token == pre.accept_token
}

/// The back-to-front direction is untouched.
pub open spec fn back_to_front_unchanged(pre: Client, post: Client) -> bool {
    &&& post.back_buf@ == pre.back_buf@
    &&& post.back_read == pre.back_read
    &&& post.front_written == pre.front_written
    &&& post.tx_count == pre.tx_count
}

/// The front-to-back direction is untouched.
pub open spec fn front_to_back_unchanged(pre: Client, post: Client) -> bool {
    &&& post.front_buf@ == pre.front_buf@
    &&& post.front_read == pre.front_read
    &&& post.back_written == pre.back_written
    &&& post.rx_count == pre.rx_count
}

/// Effect of accepting `data` from the front socket: the bytes enter the
/// front buffer and the read history, the byte counter advances, and the
/// first byte exchanged moves the session from `ClientConnected` to
/// `Connected`.  Nothing on the back-to-front path moves.
pub open spec fn readable_step(pre: Client, post: Client, data: Seq<u8>, r: ClientResult) -> bool {
    &&& post.front_buf@ == data
    &&& post.front_read@ == pre.front_read@ + data
    &&& post.rx_count == pre.rx_count + data.len()
    &&& post.back_written == pre.back_written
    &&& post.status == (if data.len() > 0 && pre.status == ConnectionStatus::ClientConnected {
        ConnectionStatus::Connected
    } else {
        pre.status
    })
    &&& r == ClientResult::Continue
    &&& back_to_front_unchanged(pre, post)
    &&& same_identity(pre, post)
    &&& post.back_connecting == pre.back_connecting
}

/// Effect of the back socket having accepted `n` bytes: exactly the `n`
/// oldest buffered bytes move to the written history, the rest stay in
/// order.  When the client had closed and the buffer is now drained, the
/// session is over.
pub open spec fn back_writable_step(pre: Client, post: Client, n: int, r: ClientResult) -> bool {
    &&& post.front_buf@ == pre.front_buf@.skip(n)
    &&& post.back_written@ == pre.back_written@ + pre.front_buf@.take(n)
    &&& post.front_read == pre.front_read
    &&& post.rx_count == pre.rx_count
    &&& post.back_connecting == false
    &&& (r == ClientResult::CloseClient <==> (pre.status == ConnectionStatus::ClientClosed
        && n == pre.front_buf@.len()))
    &&& post.status == (if pre.status == ConnectionStatus::ClientClosed && n
        == pre.front_buf@.len() {
        ConnectionStatus::Closed
    } else {
        pre.status
    })
    &&& back_to_front_unchanged(pre, post)
    &&& same_identity(pre, post)
}

/// Effect of accepting `data` from the back socket; mirror of
/// [`readable_step`].
pub open spec fn back_readable_step(pre: Client, post: Client, data: Seq<u8>, r: ClientResult) -> bool {
    &&& post.back_buf@ == data
    &&& post.back_read@ == pre.back_read@ + data
    &&& post.front_written == pre.front_written
    &&& post.tx_count == pre.tx_count
    &&& post.status == (if data.len() > 0 && pre.status == ConnectionStatus::ClientConnected {
        ConnectionStatus::Connected
    } else {
        pre.status
    })
    &&& r == ClientResult::Continue
    &&& front_to_back_unchanged(pre, post)
    &&& same_identity(pre, post)
    &&& post.back_connecting == pre.back_connecting
}

/// Effect of the front socket having accepted `n` bytes; mirror of
/// [`back_writable_step`], with the transmit counter advancing.
pub open spec fn writable_step(pre: Client, post: Client, n: int, r: ClientResult) -> bool {
    &&& post.back_buf@ == pre.back_buf@.skip(n)
    &&& post.front_written@ == pre.front_written@ + pre.back_buf@.take(n)
    &&& post.back_read == pre.back_read
    &&& post.tx_count == pre.tx_count + n
    &&& (r == ClientResult::CloseClient <==> (pre.status == ConnectionStatus::ServerClosed
        && n == pre.back_buf@.len()))
    &&& post.status == (if pre.status == ConnectionStatus::ServerClosed && n
        == pre.back_buf@.len() {
        ConnectionStatus::Closed
    } else {
        pre.status
    })
    &&& front_to_back_unchanged(pre, post)
    &&& same_identity(pre, post)
    &&& post.back_connecting == pre.back_connecting
}

/// Everything but the status and the interest sets is untouched.
pub open spec fn hup_frame(pre: Client, post: Client) -> bool {
    &&& front_to_back_unchanged(pre, post)
    &&& back_to_front_unchanged(pre, post)
    &&& same_identity(pre, post)
    &&& post.back_connecting == pre.back_connecting
}

/// Effect of the client having closed its write side.  If the server had
/// already closed, or never answered, the session is torn down at once;
/// otherwise it keeps draining towards the back end.
pub open spec fn front_hup_step(pre: Client, post: Client, r: ClientResult) -> bool {
    &&& hup_frame(pre, post)
    &&& if pre.status == ConnectionStatus::ServerClosed || pre.status
        == ConnectionStatus::ClientConnected {
        post.status == ConnectionStatus::Closed && r == ClientResult::CloseClient
    } else {
        post.status == ConnectionStatus::ClientClosed && r == ClientResult::Continue
    }
}

/// Effect of the back end having closed its write side.
pub open spec fn back_hup_step(pre: Client, post: Client, r: ClientResult) -> bool {
    &&& hup_frame(pre, post)
    &&& if pre.status == ConnectionStatus::ClientClosed {
        post.status == ConnectionStatus::Closed && r == ClientResult::CloseClient
    } else {
        post.status == ConnectionStatus::ServerClosed && r == ClientResult::Continue
    }
}

impl Client {
    /// Bring the four interest fields back in line with the buffers and
    /// the status.
    fn refresh_interests(&mut self)
        ensures
            final(self).interests_ok(),
            final(self).front_buf == old(self).front_buf,
            final(self).back_buf == old(self).back_buf,
            final(self).token == old(self).token,
            final(self).backend_token == old(self).backend_token,
            final(self).accept_token == old(self).accept_token,
            final(self).status == old(self).status,
            final(self).back_connecting == old(self).back_connecting,
            final(self).rx_count == old(self).rx_count,
            final(self).tx_count == old(self).tx_count,
            final(self).front_read == old(self).front_read,
            final(self).back_written == old(self).back_written,
            final(self).back_read == old(self).back_read,
            final(self).front_written == old(self).front_written,
    {
        let front_empty = self.front_buf.is_empty();
        let back_empty = self.back_buf.is_empty();
        self.front_interest = Interest {
            readable: front_empty && (self.status == ConnectionStatus::ClientConnected
                || self.status == ConnectionStatus::Connected || self.status
                == ConnectionStatus::ServerClosed),
            writable: !back_empty,
        };
        self.back_interest = Interest {
            readable: back_empty && (self.status == ConnectionStatus::ClientConnected
                || self.status == ConnectionStatus::Connected || self.status
                == ConnectionStatus::ClientClosed),
            writable: !front_empty || (self.back_connecting && self.status
                == ConnectionStatus::ClientConnected),
        };
    }

    /// A fresh session for a connection accepted by the listener behind
    /// `accept_token`.  Nothing is registered yet and no byte has moved.
    pub fn new(accept_token: usize) -> (r: Client)
        ensures
            r.inv(),
            r.status == ConnectionStatus::Initial,
            r.token is None,
            r.backend_token is None,
            r.accept_token == accept_token,
            r.front_buf@ == Seq::<u8>::empty(),
            r.back_buf@ == Seq::<u8>::empty(),
            r.front_read@ == Seq::<u8>::empty(),
            r.back_read@ == Seq::<u8>::empty(),
            r.back_written@ == Seq::<u8>::empty(),
            r.front_written@ == Seq::<u8>::empty(),
            r.rx_count == 0,
            r.tx_count == 0,
            r.back_connecting == true,
    {
        let c = Client {
            front_buf: Buffer::new(),
            back_buf: Buffer::new(),
            token: None,
            backend_token: None,
            accept_token,
            front_interest: Interest { readable: false, writable: false },
            back_interest: Interest { readable: false, writable: false },
            status: ConnectionStatus::Initial,
            back_connecting: true,
            rx_count: 0,
            tx_count: 0,
            front_read: Ghost(Seq::empty()),
            back_written: Ghost(Seq::empty()),
            back_read: Ghost(Seq::empty()),
            front_written: Ghost(Seq::empty()),
        };
        proof {
            assert(c.front_read@ =~= c.back_written@ + c.front_buf@);
            assert(c.back_read@ =~= c.front_written@ + c.back_buf@);
        }
        c
    }

    /// Record under which tokens both endpoints were registered.
    pub fn set_tokens(&mut self, token: usize, backend: usize)
        requires
            old(self).inv(),
        ensures
            final(self).inv(),
            *final(self) == (Client {
                token: Some(token),
                backend_token: Some(backend),
                ..*old(self)
            }),
    {
        self.token = Some(token);
        self.backend_token = Some(backend);
    }

    pub fn set_front_token(&mut self, token: usize)
        requires
            old(self).inv(),
        ensures
            final(self).inv(),
            *final(self) == (Client { token: Some(token), ..*old(self) }),
    {
        self.token = Some(token);
    }

    pub fn set_back_token(&mut self, token: usize)
        requires
            old(self).inv(),
        ensures
            final(self).inv(),
            *final(self) == (Client { backend_token: Some(token), ..*old(self) }),
    {
        self.backend_token = Some(token);
    }

    pub fn front_token(&self) -> (r: Option<usize>)
        ensures
            r == self.token,
    {
        self.token
    }

    pub fn back_token(&self) -> (r: Option<usize>)
        ensures
            r == self.backend_token,
    {
        self.backend_token
    }

    /// The back-end connect succeeded and both endpoints are about to be
    /// registered: the front for readable, the back for writable so the
    /// completion of the connect is observed.
    pub fn connect_established(&mut self)
        requires
            old(self).inv(),
            old(self).status == ConnectionStatus::Initial,
            old(self).front_buf@.len() == 0,
            old(self).back_buf@.len() == 0,
            old(self).back_connecting,
        ensures
            final(self).inv(),
            final(self).status == ConnectionStatus::ClientConnected,
            final(self).front_interest == (Interest { readable: true, writable: false }),
            final(self).back_interest.writable,
            hup_frame(*old(self), *final(self)),
    {
        self.status = ConnectionStatus::ClientConnected;
        self.refresh_interests();
    }

    /// `data` was just read from the front socket; empty means the read
    /// would have blocked and the readable interest is simply kept.
    pub fn readable(&mut self, data: &[u8]) -> (r: ClientResult)
        requires
            old(self).inv(),
            old(self).front_interest.readable,
            data@.len() <= BUFFER_SIZE,
            old(self).rx_count + data@.len() <= usize::MAX,
        ensures
            final(self).inv(),
            readable_step(*old(self), *final(self), data@, r),
    {
        if data.len() > 0 {
            self.front_buf.fill(data);
            self.rx_count = self.rx_count + data.len();
            self.front_read = Ghost(self.front_read@ + data@);
            if self.status == ConnectionStatus::ClientConnected {
                self.status = ConnectionStatus::Connected;
            }
        }
        self.refresh_interests();
        proof {
            if data@.len() == 0 {
                assert(self.front_buf@ =~= data@);
                assert(self.front_read@ =~= old(self).front_read@ + data@);
            }
            assert(self.front_read@ =~= self.back_written@ + self.front_buf@);
        }
        ClientResult::Continue
    }

    /// The back socket accepted `n` of the pending bytes; `n == 0` means
    /// the write would have blocked, or only the completion of the
    /// connect was being signalled.
    pub fn back_writable(&mut self, n: usize) -> (r: ClientResult)
        requires
            old(self).inv(),
            old(self).back_interest.writable,
            n <= old(self).front_buf@.len(),
        ensures
            final(self).inv(),
            back_writable_step(*old(self), *final(self), n as int, r),
    {
        let len = self.front_buf.len();
        self.back_written = Ghost(self.back_written@ + self.front_buf@.take(n as int));
        self.front_buf.consume(n);
        self.back_connecting = false;
        let r = if self.status == ConnectionStatus::ClientClosed && n == len {
            self.status = ConnectionStatus::Closed;
            ClientResult::CloseClient
        } else {
            ClientResult::Continue
        };
        self.refresh_interests();
        proof {
            assert(old(self).front_buf@.take(n as int) + old(self).front_buf@.skip(n as int)
                =~= old(self).front_buf@);
            assert(self.front_read@ =~= self.back_written@ + self.front_buf@);
        }
        r
    }

    /// `data` was just read from the back socket; mirror of
    /// [`Client::readable`].
    pub fn back_readable(&mut self, data: &[u8]) -> (r: ClientResult)
        requires
            old(self).inv(),
            old(self).back_interest.readable,
            data@.len() <= BUFFER_SIZE,
        ensures
            final(self).inv(),
            back_readable_step(*old(self), *final(self), data@, r),
    {
        if data.len() > 0 {
            self.back_buf.fill(data);
            self.back_read = Ghost(self.back_read@ + data@);
            if self.status == ConnectionStatus::ClientConnected {
                self.status = ConnectionStatus::Connected;
            }
        }
        self.refresh_interests();
        proof {
            if data@.len() == 0 {
                assert(self.back_buf@ =~= data@);
                assert(self.back_read@ =~= old(self).back_read@ + data@);
            }
            assert(self.back_read@ =~= self.front_written@ + self.back_buf@);
        }
        ClientResult::Continue
    }

    /// The front socket accepted `n` of the pending bytes; mirror of
    /// [`Client::back_writable`].
    pub fn writable(&mut self, n: usize) -> (r: ClientResult)
        requires
            old(self).inv(),
            old(self).front_interest.writable,
            n <= old(self).back_buf@.len(),
            old(self).tx_count + n <= usize::MAX,
        ensures
            final(self).inv(),
            writable_step(*old(self), *final(self), n as int, r),
    {
        let len = self.back_buf.len();
        self.front_written = Ghost(self.front_written@ + self.back_buf@.take(n as int));
        self.back_buf.consume(n);
        self.tx_count = self.tx_count + n;
        let r = if self.status == ConnectionStatus::ServerClosed && n == len {
            self.status = ConnectionStatus::Closed;
            ClientResult::CloseClient
        } else {
            ClientResult::Continue
        };
        self.refresh_interests();
        proof {
            assert(old(self).back_buf@.take(n as int) + old(self).back_buf@.skip(n as int)
                =~= old(self).back_buf@);
            assert(self.back_read@ =~= self.front_written@ + self.back_buf@);
        }
        r
    }

    /// The client closed its write side.
    pub fn front_hup(&mut self) -> (r: ClientResult)
        requires
            old(self).inv(),
            old(self).status != ConnectionStatus::Closed,
        ensures
            final(self).inv(),
            front_hup_step(*old(self), *final(self), r),
    {
        let r = if self.status == ConnectionStatus::ServerClosed || self.status
            == ConnectionStatus::ClientConnected {
            self.status = ConnectionStatus::Closed;
            ClientResult::CloseClient
        } else {
            self.status = ConnectionStatus::ClientClosed;
            ClientResult::Continue
        };
        self.refresh_interests();
        r
    }

    /// The back end closed its write side.
    pub fn back_hup(&mut self) -> (r: ClientResult)
        requires
            old(self).inv(),
            old(self).status != ConnectionStatus::Closed,
        ensures
            final(self).inv(),
            back_hup_step(*old(self), *final(self), r),
    {
        let r = if self.status == ConnectionStatus::ClientClosed {
            self.status = ConnectionStatus::Closed;
            ClientResult::CloseClient
        } else {
            self.status = ConnectionStatus::ServerClosed;
            ClientResult::Continue
        };
        self.refresh_interests();
        r
    }

    /// An unrecoverable socket error: the session is forced over and
    /// must be removed.  The byte accounting stays intact.
    pub fn socket_error(&mut self)
        requires
            old(self).inv(),
        ensures
            final(self).inv(),
            final(self).status == ConnectionStatus::Closed,
            hup_frame(*old(self), *final(self)),
    {
        self.status = ConnectionStatus::Closed;
        self.refresh_interests();
    }
}

/// Byte fidelity, front to back: the bytes handed to the back socket are
/// exactly the oldest `rx_count - |front buffer|` bytes read from the
/// front socket — none lost, none duplicated, none reordered.
pub proof fn lemma_byte_fidelity_front_to_back(c: Client)
    requires
        c.inv(),
    ensures
        c.rx_count == c.front_read@.len(),
        c.back_written@ == c.front_read@.take(c.rx_count - c.front_buf@.len()),
{
    assert(c.back_written@ =~= c.front_read@.take(c.rx_count - c.front_buf@.len()));
}

/// Byte fidelity, back to front: the bytes handed to the front socket
/// are exactly the oldest `tx_count` bytes read from the back socket.
pub proof fn lemma_byte_fidelity_back_to_front(c: Client)
    requires
        c.inv(),
    ensures
        c.tx_count <= c.back_read@.len(),
        c.front_written@ == c.back_read@.take(c.tx_count as int),
{
    assert(c.front_written@ =~= c.back_read@.take(c.tx_count as int));
}

/// Interest-set progress: in every non-terminal state, pending bytes
/// keep their destination writable-interested, and a drained buffer
/// whose source may still deliver keeps that source readable-interested.
/// A livelock by a forgotten registration is therefore impossible.
pub proof fn lemma_interest_progress(c: Client)
    requires
        c.inv(),
        c.status != ConnectionStatus::Closed,
    ensures
        c.front_buf@.len() > 0 ==> c.back_interest.writable,
        c.back_buf@.len() > 0 ==> c.front_interest.writable,
        c.front_buf@.len() == 0 && front_read_ok(c.status) ==> c.front_interest.readable,
        c.back_buf@.len() == 0 && back_read_ok(c.status) ==> c.back_interest.readable,
{
}

} // verus!
