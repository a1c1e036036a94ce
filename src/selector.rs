//! Choosing among several server configurations on one listener.
//!
//! The selector reads the first packet of a connection, requires it to be
//! CONNECT, and offers the handshake to each configured server in turn until
//! one of them takes it.
use vstd::prelude::*;

use crate::packet::PacketType;

verus! {

/// Default deadline for the first `Connect` frame, in milliseconds.
pub const DEFAULT_CONNECT_TIMEOUT_MS: u32 = 10000;

/// A builder holding the candidate servers, in the order they are tried.
pub struct Selector<S> {
    pub servers: Vec<S>,
    /// Max inbound frame size; `0` means unlimited.
    pub max_size: u32,
    /// Deadline for the first frame, in milliseconds.
    pub connect_timeout: u32,
}

/// The running form of a [`Selector`]: one created service per server.
pub struct SelectorService<T> {
    pub servers: Vec<T>,
    pub max_size: u32,
    pub connect_timeout: u32,
}

/// Readiness that one server reported when polled.
#[derive(Clone, Copy, Debug, PartialEq, Eq, Structural)]
pub enum Readiness {
    Ready,
    Pending,
    Failed,
}

/// Readiness of the selector as a whole.
#[derive(Clone, Copy, Debug, PartialEq, Eq, Structural)]
pub enum ServiceReadiness {
    Ready,
    Pending,
    /// The server at this index reported an error; later servers are not polled.
    Failed(usize),
}

/// Converts a timeout in whole seconds to milliseconds.
pub fn seconds_to_millis(secs: u16) -> (r: u32)
    ensures
        r == secs * 1000,
{
    (secs as u32) * 1000
}

impl<S> Selector<S> {
    pub fn new() -> (r: Self)
        ensures
            r.servers@.len() == 0,
            r.max_size == 0,
            r.connect_timeout == DEFAULT_CONNECT_TIMEOUT_MS,
    {
        Selector { servers: Vec::new(), max_size: 0, connect_timeout: DEFAULT_CONNECT_TIMEOUT_MS }
    }

    /// Sets the deadline, in seconds, for reading the first `Connect` frame.
    pub fn connect_timeout(self, timeout: u16) -> (r: Self)
        ensures
            r.connect_timeout == timeout * 1000,
            r.servers@ == self.servers@,
            r.max_size == self.max_size,
    {
        let mut s = self;
        s.connect_timeout = seconds_to_millis(timeout);
        s
    }

    /// Sets the max inbound frame size; `0` leaves it unlimited.
    pub fn max_size(self, size: u32) -> (r: Self)
        ensures
            r.max_size == size,
            r.servers@ == self.servers@,
            r.connect_timeout == self.connect_timeout,
    {
        let mut s = self;
        s.max_size = size;
        s
    }

    /// Adds a server variant after those already present.
    pub fn variant(self, server: S) -> (r: Self)
        ensures
            r.servers@ == self.servers@.push(server),
            r.max_size == self.max_size,
            r.connect_timeout == self.connect_timeout,
    {
        let mut s = self;
        s.servers.push(server);
        s
    }

    /// Builds the running service from one created service per server, in
    /// the same order.
    pub fn create_service<T>(&self, created: Vec<T>) -> (r: SelectorService<T>)
        requires
            created@.len() == self.servers@.len(),
        ensures
            r.servers@ == created@,
            r.max_size == self.max_size,
            r.connect_timeout == self.connect_timeout,
    {
        SelectorService { servers: created, max_size: self.max_size, connect_timeout: self.connect_timeout }
    }
}

/// Whether `i` is the first server that failed among `polls`.
pub open spec fn first_failed(polls: Seq<Readiness>, i: int) -> bool {
    0 <= i < polls.len() && polls[i] == Readiness::Failed
        && forall|j: int| 0 <= j < i ==> polls[j] != Readiness::Failed
}


/// Why a connection ended before any server took its handshake.
#[derive(Clone, Copy, Debug, PartialEq, Eq, Structural)]
pub enum HandshakeError {
    /// No complete first frame arrived before the deadline.
    Timeout,
    /// The peer went away, or no server would take the CONNECT.
    Disconnected,
    /// The first frame could not be decoded.
    Decode,
    /// The first packet was not CONNECT.
    UnexpectedPacket(PacketType),
}

/// What reading the first frame of a connection gave.
#[derive(Clone, Copy, Debug, PartialEq, Eq, Structural)]
pub enum FirstRead {
    TimedOut,
    DecodeFailed,
    IoFailed,
    Closed,
    Packet(PacketType),
}

/// Reply of one server to the offered handshake.
#[derive(Clone, Copy, Debug, PartialEq, Eq, Structural)]
pub enum VariantReply {
    /// Its predicate declined; the handshake goes on to the next server.
    Declined,
    /// The server took the connection.
    Handled,
    /// The server failed with its own error.
    Failed,
}

/// What the selector does next with a CONNECT.
#[derive(Clone, Copy, Debug, PartialEq, Eq, Structural)]
pub enum Selection {
    /// Offer the handshake to the server at this index.
    Offer(usize),
    /// A server took the connection.
    Handled,
    /// The server at this index failed; its error ends the connection.
    Failed(usize),
    /// Every server declined.
    Rejected,
}

/// Checks the first packet of a connection: only CONNECT lets the handshake
/// go on.
pub fn accept_first_packet(read: FirstRead) -> (r: Result<(), HandshakeError>)
    ensures
        r is Ok <==> read == FirstRead::Packet(PacketType::Connect),
        read == FirstRead::TimedOut ==> r == Err::<(), _>(HandshakeError::Timeout),
        read == FirstRead::DecodeFailed ==> r == Err::<(), _>(HandshakeError::Decode),
        read == FirstRead::IoFailed ==> r == Err::<(), _>(HandshakeError::Disconnected),
        read == FirstRead::Closed ==> r == Err::<(), _>(HandshakeError::Disconnected),
        forall|t: PacketType|
            read == FirstRead::Packet(t) && t != PacketType::Connect ==> r == Err::<(), _>(
                HandshakeError::UnexpectedPacket(t),
            ),
{
    match read {
        FirstRead::TimedOut => Err(HandshakeError::Timeout),
        FirstRead::DecodeFailed => Err(HandshakeError::Decode),
        FirstRead::IoFailed => Err(HandshakeError::Disconnected),
        FirstRead::Closed => Err(HandshakeError::Disconnected),
        FirstRead::Packet(t) => match t {
            PacketType::Connect => Ok(()),
            _ => Err(HandshakeError::UnexpectedPacket(t)),
        },
    }
}

/// Outcome of offering a handshake to the servers in order, given the replies
/// of the first `replies.len()` of them, out of `n`.
pub open spec fn selection_of(replies: Seq<VariantReply>, n: nat) -> Selection
    decreases replies.len(),
{
    if replies.len() == 0 {
        if n == 0 {
            Selection::Rejected
        } else {
            Selection::Offer(0)
        }
    } else {
        let prev = selection_of(replies.drop_last(), n);
        match prev {
            Selection::Offer(i) => match replies.last() {
                VariantReply::Handled => Selection::Handled,
                VariantReply::Failed => Selection::Failed(i),
                VariantReply::Declined => if i + 1 < n {
                    Selection::Offer((i + 1) as usize)
                } else {
                    Selection::Rejected
                },
            },
            _ => prev,
        }
    }
}

impl<T> SelectorService<T> {
    /// Combines the readiness of the servers, polled in order: the first
    /// failure wins, otherwise the selector is ready once every server is.
    pub fn poll_ready(&self, polls: &Vec<Readiness>) -> (r: ServiceReadiness)
        ensures
            match r {
                ServiceReadiness::Failed(i) => first_failed(polls@, i as int),
                ServiceReadiness::Ready => forall|j: int|
                    0 <= j < polls@.len() ==> polls@[j] == Readiness::Ready,
                ServiceReadiness::Pending => (forall|j: int|
                    0 <= j < polls@.len() ==> polls@[j] != Readiness::Failed) && exists|j: int|
                    0 <= j < polls@.len() && polls@[j] == Readiness::Pending,
            },
    {
        let mut ready = true;
        let mut pending_at: usize = 0;
        let mut i: usize = 0;
        while i < polls.len()
            invariant
                i <= polls@.len(),
                forall|j: int| 0 <= j < i ==> polls@[j] != Readiness::Failed,
                ready <==> forall|j: int| 0 <= j < i ==> polls@[j] == Readiness::Ready,
                !ready ==> pending_at < i && polls@[pending_at as int] == Readiness::Pending,
            decreases polls@.len() - i,
        {
            match polls[i] {
                Readiness::Failed => {
                    return ServiceReadiness::Failed(i);
                },
                Readiness::Pending => {
                    if ready {
                        pending_at = i;
                    }
                    ready = false;
                },
                Readiness::Ready => {},
            }
            i = i + 1;
        }
        if ready {
            ServiceReadiness::Ready
        } else {
            ServiceReadiness::Pending
        }
    }

    /// Where the selection of a server starts.
    pub fn start_selection(&self) -> (r: Selection)
        ensures
            r == selection_of(Seq::empty(), self.servers@.len()),
    {
        if self.servers.len() == 0 {
            Selection::Rejected
        } else {
            Selection::Offer(0)
        }
    }

    /// The next step after the server at `index` gave `reply`: a declined
    /// handshake goes to the next server, and past the last one the
    /// connection is rejected.
    pub fn on_reply(&self, index: usize, reply: VariantReply) -> (r: Selection)
        requires
            index < self.servers@.len(),
        ensures
            forall|replies: Seq<VariantReply>|
                selection_of(replies, self.servers@.len()) == Selection::Offer(index)
                    ==> #[trigger] selection_of(replies.push(reply), self.servers@.len()) == r,
    {
        let r = match reply {
            VariantReply::Handled => Selection::Handled,
            VariantReply::Failed => Selection::Failed(index),
            VariantReply::Declined => if index < self.servers.len() - 1 {
                Selection::Offer(index + 1)
            } else {
                Selection::Rejected
            },
        };
        assert forall|replies: Seq<VariantReply>|
            selection_of(replies, self.servers@.len()) == Selection::Offer(index)
                implies #[trigger] selection_of(replies.push(reply), self.servers@.len()) == r by {
            assert(replies.push(reply).drop_last() == replies);
        }
        r
    }

    /// The selector has shut down once every server has.
    pub fn poll_shutdown(&self, polls: &Vec<bool>) -> (r: bool)
        ensures
            r <==> forall|j: int| 0 <= j < polls@.len() ==> polls@[j],
    {
        let mut ready = true;
        let mut i: usize = 0;
        while i < polls.len()
            invariant
                i <= polls@.len(),
                ready <==> forall|j: int| 0 <= j < i ==> polls@[j],
            decreases polls@.len() - i,
        {
            ready = ready && polls[i];
            i = i + 1;
        }
        ready
    }
}

/// Servers are tried in order: while every server so far has declined, the
/// handshake is offered to the next one, and once all have declined the
/// connection is rejected.
pub proof fn lemma_declined_moves_on(replies: Seq<VariantReply>, n: nat)
    requires
        replies.len() <= n <= usize::MAX,
        forall|i: int| 0 <= i < replies.len() ==> replies[i] == VariantReply::Declined,
    ensures
        replies.len() < n ==> selection_of(replies, n) == Selection::Offer(replies.len() as usize),
        replies.len() == n ==> selection_of(replies, n) == Selection::Rejected,
    decreases replies.len(),
{
    if replies.len() > 0 {
        let prev = replies.drop_last();
        assert forall|i: int| 0 <= i < prev.len() implies prev[i] == VariantReply::Declined by {
            assert(prev[i] == replies[i]);
        }
        lemma_declined_moves_on(prev, n);
        assert(replies.last() == VariantReply::Declined);
    }
}

} // verus!
