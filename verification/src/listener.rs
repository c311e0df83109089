//! The staging queue of a bureau: clients that have connected and have yet
//! to send their handshake.
//!
//! The caller accepts the sockets and reads from them. Each staged client
//! is known here by the token that the caller gave it.

use vstd::prelude::*;
use crate::user::{ReadModel, ReadOutcome};

verus! {

/// The number of bytes in a handshake.
pub const HANDSHAKE_LEN: usize = 7;

/// The handshake that a client opens with: `hello`, then the protocol
/// version 1.1, one byte each.
pub open spec fn handshake_bytes() -> Seq<u8> {
    seq![0x68u8, 0x65u8, 0x6Cu8, 0x6Cu8, 0x6Fu8, 1u8, 1u8]
}

/// A client in the staging queue.
pub struct Pending {
    token: u64,
    since: u64,
    seen: Vec<u8>,
}

/// A staged client, as plain values.
pub struct PendingModel {
    /// The caller's name for the client's socket.
    pub token: u64,
    /// The time, in seconds, at which the client was accepted.
    pub since: u64,
    /// The bytes of its handshake that have arrived so far.
    pub seen: Seq<u8>,
}

impl View for Pending {
    type V = PendingModel;

    closed spec fn view(&self) -> PendingModel {
        PendingModel { token: self.token, since: self.since, seen: self.seen@ }
    }
}

impl PendingModel {
    /// Whether the client has been staged for more than `timeout` seconds
    /// at the time `now`.
    pub open spec fn expired(self, now: u64, timeout: u64) -> bool {
        now - self.since > timeout
    }
}

/// What became of a client.
#[derive(Clone, Copy, Debug, PartialEq, Eq, Structural)]
pub enum ListenerEvent {
    /// The client with this token was staged.
    Incoming(u64),
    /// The queue is full; the client with this token was not staged.
    Refused(u64),
    /// The client with this token has sent the handshake and left the queue.
    Accepted(u64),
    /// The client with this token has left the queue and is to be closed.
    Dropped(u64),
}

/// The state of a listener, as plain values.
pub struct ListenerModel {
    pub port: u16,
    /// The number of seconds that a client may take for its handshake.
    pub timeout: u64,
    /// The number of clients that may be staged at a time.
    pub max_queue: usize,
    /// The staged clients, oldest first.
    pub queue: Seq<PendingModel>,
}

impl ListenerModel {
    /// No staged client has sent a whole handshake yet.
    pub open spec fn wf(self) -> bool {
        forall|i: int| 0 <= i < self.queue.len() ==> (#[trigger] self.queue[i]).seen.len()
            < HANDSHAKE_LEN
    }

    /// This listener with `queue` in place of its queue.
    pub open spec fn with_queue(self, queue: Seq<PendingModel>) -> ListenerModel {
        ListenerModel { queue: queue, ..self }
    }
}

/// The queue and the event after the client at `index` has been read from.
///
/// A client that has been staged for too long is dropped, whatever was
/// read. Otherwise it waits on while nothing has arrived or its handshake is
/// still incomplete, is dropped where the read failed, the peer closed, or
/// the seven bytes are not the handshake, and is accepted where they are.
pub open spec fn listener_step(l: ListenerModel, index: int, read: ReadModel, now: u64) -> (
    ListenerModel,
    Option<ListenerEvent>,
) {
    let client = l.queue[index];
    let without = l.with_queue(l.queue.remove(index));
    if client.expired(now, l.timeout) {
        (without, Some(ListenerEvent::Dropped(client.token)))
    } else {
        match read {
            ReadModel::WouldBlock => (l, None),
            ReadModel::Failed => (without, Some(ListenerEvent::Dropped(client.token))),
            ReadModel::Data(bytes) => if bytes.len() == 0 {
                (without, Some(ListenerEvent::Dropped(client.token)))
            } else if client.seen.len() + bytes.len() < HANDSHAKE_LEN {
                (
                    l.with_queue(
                        l.queue.update(index, PendingModel { seen: client.seen + bytes, ..client }),
                    ),
                    None,
                )
            } else if client.seen + bytes == handshake_bytes() {
                (without, Some(ListenerEvent::Accepted(client.token)))
            } else {
                (without, Some(ListenerEvent::Dropped(client.token)))
            },
        }
    }
}

/// A handshake that arrives in two reads is handled as if it had arrived
/// in one, as long as the client has not run out of time at either read.
pub proof fn lemma_handshake_split(
    l: ListenerModel,
    index: int,
    first: Seq<u8>,
    second: Seq<u8>,
    now: u64,
    later: u64,
)
    requires
        0 <= index < l.queue.len(),
        first.len() > 0,
        second.len() > 0,
        l.queue[index].seen.len() + first.len() + second.len() == HANDSHAKE_LEN,
        !l.queue[index].expired(now, l.timeout),
        !l.queue[index].expired(later, l.timeout),
    ensures
        listener_step(l, index, ReadModel::Data(first), now).1 is None,
        listener_step(
            listener_step(l, index, ReadModel::Data(first), now).0,
            index,
            ReadModel::Data(second),
            later,
        ) == listener_step(l, index, ReadModel::Data(first + second), later),
{
    let mid = listener_step(l, index, ReadModel::Data(first), now).0;
    assert(mid.queue[index].seen + second =~= l.queue[index].seen + (first + second));
    assert(mid.queue.remove(index) =~= l.queue.remove(index));
}

/// The staging queue of one bureau.
pub struct Listener {
    port: u16,
    timeout: u64,
    max_queue: usize,
    queue: Vec<Pending>,
}

/// The models of a queue's clients.
pub open spec fn pending_models(queue: Seq<Pending>) -> Seq<PendingModel> {
    Seq::new(queue.len(), |i: int| queue[i]@)
}

impl View for Listener {
    type V = ListenerModel;

    closed spec fn view(&self) -> ListenerModel {
        ListenerModel {
            port: self.port,
            timeout: self.timeout,
            max_queue: self.max_queue,
            queue: pending_models(self.queue@),
        }
    }
}

impl Listener {
    /// A listener on `port` with nobody staged.
    pub fn new(port: u16, timeout: u64, max_queue: usize) -> (l: Listener)
        ensures
            l@ == (ListenerModel { port, timeout, max_queue, queue: Seq::empty() }),
            l@.wf(),
    {
        let l = Listener { port, timeout, max_queue, queue: Vec::new() };
        assert(l@.queue =~= Seq::empty());
        l
    }

    pub fn port(&self) -> (p: u16)
        ensures
            p == self@.port,
    {
        self.port
    }

    /// The number of staged clients.
    pub fn pending(&self) -> (n: usize)
        ensures
            n == self@.queue.len(),
    {
        self.queue.len()
    }

    /// Stages a client that has just connected, unless the queue is full.
    pub fn accept(&mut self, token: u64, now: u64) -> (r: ListenerEvent)
        requires
            old(self)@.wf(),
        ensures
            old(self)@.queue.len() < old(self)@.max_queue ==> r == ListenerEvent::Incoming(token)
                && final(self)@ == old(self)@.with_queue(
                old(self)@.queue.push(
                    PendingModel { token: token, since: now, seen: Seq::empty() },
                ),
            ),
            old(self)@.queue.len() >= old(self)@.max_queue ==> r == ListenerEvent::Refused(token)
                && final(self)@ == old(self)@,
            final(self)@.wf(),
    {
        if self.queue.len() >= self.max_queue {
            return ListenerEvent::Refused(token);
        }
        self.queue.push(Pending { token, since: now, seen: Vec::new() });
        assert(self@.queue =~= old(self)@.queue.push(
            PendingModel { token: token, since: now, seen: Seq::empty() },
        ));
        ListenerEvent::Incoming(token)
    }

    /// Takes back the client that was staged last and returns its token.
    pub fn deny_last(&mut self) -> (r: Option<u64>)
        requires
            old(self)@.wf(),
        ensures
            old(self)@.queue.len() == 0 ==> r is None && final(self)@ == old(self)@,
            old(self)@.queue.len() > 0 ==> r == Some(old(self)@.queue.last().token)
                && final(self)@ == old(self)@.with_queue(old(self)@.queue.drop_last()),
            final(self)@.wf(),
    {
        match self.queue.pop() {
            Some(client) => {
                assert(self@.queue =~= old(self)@.queue.drop_last());
                assert(client@ == old(self)@.queue.last());
                Some(client.token)
            },
            None => {
                assert(self@.queue =~= old(self)@.queue);
                None
            },
        }
    }

    /// The token of the client at `index`.
    pub fn token(&self, index: usize) -> (t: u64)
        requires
            index < self@.queue.len(),
        ensures
            t == self@.queue[index as int].token,
    {
        self.queue[index].token
    }

    /// The number of bytes to read next from the client at `index`.
    pub fn wants(&self, index: usize) -> (n: usize)
        requires
            self@.wf(),
            index < self@.queue.len(),
        ensures
            n == HANDSHAKE_LEN - self@.queue[index as int].seen.len(),
            n > 0,
    {
        assert(self@.queue[index as int].seen.len() < HANDSHAKE_LEN);
        HANDSHAKE_LEN - self.queue[index].seen.len()
    }

    /// Takes the outcome of a read of at most `wants(index)` bytes from the
    /// client at `index`, at the time `now`.
    pub fn poll_event(&mut self, index: usize, read: ReadOutcome, now: u64) -> (r: Option<
        ListenerEvent,
    >)
        requires
            old(self)@.wf(),
            index < old(self)@.queue.len(),
            read@ matches ReadModel::Data(bytes) ==> old(self)@.queue[index as int].seen.len()
                + bytes.len() <= HANDSHAKE_LEN,
        ensures
            (final(self)@, r) == listener_step(old(self)@, index as int, read@, now),
            final(self)@.wf(),
    {
        let token: u64 = self.queue[index].token;
        let since: u64 = self.queue[index].since;
        assert(self@.queue[index as int] == self.queue@[index as int]@);
        if now > since && now - since > self.timeout {
            self.drop_at(index);
            return Some(ListenerEvent::Dropped(token));
        }
        match read {
            ReadOutcome::WouldBlock => None,
            ReadOutcome::Failed => {
                self.drop_at(index);
                Some(ListenerEvent::Dropped(token))
            },
            ReadOutcome::Data(bytes) => {
                if bytes.len() == 0 {
                    self.drop_at(index);
                    return Some(ListenerEvent::Dropped(token));
                }
                let mut client = self.queue.remove(index);
                client.seen.extend_from_slice(bytes.as_slice());
                assert(client.seen@ =~= old(self)@.queue[index as int].seen + bytes@);
                assert(pending_models(self.queue@) =~= old(self)@.queue.remove(index as int));
                if client.seen.len() < HANDSHAKE_LEN {
                    self.queue.insert(index, client);
                    assert(self@.queue =~= old(self)@.queue.update(
                        index as int,
                        PendingModel {
                            seen: old(self)@.queue[index as int].seen + bytes@,
                            ..old(self)@.queue[index as int]
                        },
                    ));
                    return None;
                }
                if is_handshake(client.seen.as_slice()) {
                    Some(ListenerEvent::Accepted(token))
                } else {
                    Some(ListenerEvent::Dropped(token))
                }
            },
        }
    }

    /// Takes the client at `index` out of the queue.
    fn drop_at(&mut self, index: usize)
        requires
            old(self)@.wf(),
            index < old(self)@.queue.len(),
        ensures
            final(self)@ == old(self)@.with_queue(old(self)@.queue.remove(index as int)),
            final(self)@.wf(),
    {
        let _ = self.queue.remove(index);
        assert(self@.queue =~= old(self)@.queue.remove(index as int));
    }
}

/// Whether `bytes` is the handshake.
pub fn is_handshake(bytes: &[u8]) -> (r: bool)
    ensures
        r == (bytes@ == handshake_bytes()),
{
    let r = bytes.len() == 7 && bytes[0] == 0x68 && bytes[1] == 0x65 && bytes[2] == 0x6C
        && bytes[3] == 0x6C && bytes[4] == 0x6F && bytes[5] == 1 && bytes[6] == 1;
    assert(r == (bytes@ =~= handshake_bytes()));
    r
}

} // verus!
