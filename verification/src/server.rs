//! The broadcaster and the process-wide metrics, as one verified state.
//!
//! The broadcaster is the single consumer of the tuple channel: for each
//! `(sender, message)` tuple it bumps the message counter and fans the
//! message out to every registered peer except the sender. The two counters
//! are tied to the state by invariant: `messages_counter` equals the number
//! of tuples processed since start, and `active_connections` equals the
//! current size of the session registry.

use crate::messages::{Message, MessageView};
use crate::registry::Registry;
use vstd::prelude::*;
use vstd::seq_lib::group_seq_lib_default;

verus! {

broadcast use group_seq_lib_default;

/// The chat server's shared state: the session registry, the two metrics,
/// and (as a ghost) the log of tuples the broadcaster has processed.
pub struct ChatServer<T> {
    registry: Registry<T>,
    messages_counter: u64,
    active_connections: i64,
    processed: Ghost<Seq<(u64, MessageView)>>,
}

impl<T> ChatServer<T> {
    /// The registered addresses, in iteration order.
    pub closed spec fn addrs(&self) -> Seq<u64> {
        self.registry.addrs()
    }

    /// The tuples the broadcaster has processed since start, in order.
    pub closed spec fn log(&self) -> Seq<(u64, MessageView)> {
        self.processed@
    }

    /// The message counter metric.
    pub closed spec fn counter(&self) -> u64 {
        self.messages_counter
    }

    /// The connection gauge metric.
    pub closed spec fn gauge(&self) -> i64 {
        self.active_connections
    }

    /// The registry seen whole, for callers that hold the lock.
    pub closed spec fn spec_registry(&self) -> Registry<T> {
        self.registry
    }

    /// The server invariant: the registry is well formed, `messages_counter`
    /// equals the number of tuples processed, and `active_connections`
    /// equals the current registry size.
    pub open spec fn wf(&self) -> bool {
        &&& self.spec_registry().wf()
        &&& self.addrs() == self.spec_registry().addrs()
        &&& self.counter() == self.log().len()
        &&& self.gauge() == self.addrs().len()
    }

    /// A fresh server: nothing registered, nothing processed.
    pub fn new() -> (r: Self)
        ensures
            r.wf(),
            r.addrs() == Seq::<u64>::empty(),
            r.log() == Seq::<(u64, MessageView)>::empty(),
            r.counter() == 0,
            r.gauge() == 0,
    {
        ChatServer {
            registry: Registry::new(),
            messages_counter: 0,
            active_connections: 0,
            processed: Ghost(Seq::empty()),
        }
    }

    /// The number of live sessions: the welcome snapshot reads this under
    /// the lock before inserting the new peer.
    pub fn active_users(&self) -> (r: usize)
        requires
            self.wf(),
        ensures
            r == self.addrs().len(),
    {
        self.registry.len()
    }

    /// The message counter, as the metrics endpoint reports it.
    pub fn messages_count(&self) -> (r: u64)
        ensures
            r == self.counter(),
    {
        self.messages_counter
    }

    /// The connection gauge, as the metrics endpoint reports it.
    pub fn connections_gauge(&self) -> (r: i64)
        ensures
            r == self.gauge(),
    {
        self.active_connections
    }

    /// Whether `addr` currently has a session.
    pub fn contains(&self, addr: u64) -> (r: bool)
        ensures
            r == self.addrs().contains(addr),
    {
        self.registry.contains(addr)
    }

    /// Registers an authenticated session and bumps the gauge with it.
    pub fn register_session(&mut self, addr: u64, conn: T)
        requires
            old(self).wf(),
            !old(self).addrs().contains(addr),
            old(self).addrs().len() + 1 <= i64::MAX,
        ensures
            final(self).wf(),
            final(self).addrs() == old(self).addrs().push(addr),
            final(self).gauge() == old(self).gauge() + 1,
            final(self).counter() == old(self).counter(),
            final(self).log() == old(self).log(),
    {
        self.registry.insert(addr, conn);
        self.active_connections = self.active_connections + 1;
    }

    /// Ends the session at `addr`, if any, handing back its connection half;
    /// the gauge falls with the registry. Only that one entry leaves: every
    /// other session keeps its place, in order.
    pub fn end_session(&mut self, addr: u64) -> (r: Option<T>)
        requires
            old(self).wf(),
        ensures
            final(self).wf(),
            !final(self).addrs().contains(addr),
            final(self).counter() == old(self).counter(),
            final(self).log() == old(self).log(),
            r is Some <==> old(self).addrs().contains(addr),
            match r {
                Some(_) => exists|k: int|
                    0 <= k < old(self).addrs().len() && old(self).addrs()[k] == addr
                        && final(self).addrs() == old(self).addrs().remove(k),
                None => final(self).addrs() == old(self).addrs(),
            },
            final(self).addrs().len() == old(self).addrs().len() - (
            if old(self).addrs().contains(addr) {
                1int
            } else {
                0int
            }),
            final(self).gauge() == final(self).addrs().len(),
    {
        let r = self.registry.remove(addr);
        match r {
            Some(conn) => {
                self.active_connections = self.active_connections - 1;
                Some(conn)
            },
            None => None,
        }
    }

    /// Consumes one broadcast tuple: counts it, records it, and names every
    /// peer the message must be written to — every registered address except
    /// the sender's, in registry order.
    pub fn process_tuple(&mut self, sender: u64, message: &Message) -> (targets: Vec<u64>)
        requires
            old(self).wf(),
            old(self).counter() < u64::MAX,
        ensures
            final(self).wf(),
            final(self).addrs() == old(self).addrs(),
            final(self).gauge() == old(self).gauge(),
            final(self).counter() == old(self).counter() + 1,
            final(self).log() == old(self).log().push((sender, message@)),
            targets@ == old(self).addrs().filter(|a: u64| a != sender),
            forall|i: int| 0 <= i < targets@.len() ==> (#[trigger] targets@[i]) != sender,
    {
        self.messages_counter = self.messages_counter + 1;
        proof {
            self.processed@ = self.processed@.push((sender, message@));
        }
        self.registry.targets(sender)
    }
}

/// The predicate picking the tuples of one sender.
pub open spec fn from_sender(sender: u64) -> spec_fn((u64, MessageView)) -> bool {
    |t: (u64, MessageView)| t.0 == sender
}

/// The projection from a channel tuple to its message.
pub open spec fn tuple_message() -> spec_fn((u64, MessageView)) -> MessageView {
    |t: (u64, MessageView)| t.1
}

/// The messages one sender has put on the channel, in channel order.
pub open spec fn messages_from(log: Seq<(u64, MessageView)>, sender: u64) -> Seq<MessageView> {
    log.filter(from_sender(sender)).map_values(tuple_message())
}

/// Per-sender order: what the broadcaster has processed is a prefix of what
/// was submitted, so the messages any receiver has observed from one sender
/// form a prefix of that sender's submission order.
pub proof fn lemma_per_sender_prefix(
    processed: Seq<(u64, MessageView)>,
    submitted: Seq<(u64, MessageView)>,
    sender: u64,
)
    requires
        processed.is_prefix_of(submitted),
    ensures
        messages_from(processed, sender).is_prefix_of(messages_from(submitted, sender)),
{
    let pred = from_sender(sender);
    let f = tuple_message();
    let rest = submitted.skip(processed.len() as int);
    assert(submitted =~= processed + rest);
    Seq::filter_distributes_over_add(processed, rest, pred);
    assert(messages_from(submitted, sender) =~= messages_from(processed, sender)
        + rest.filter(pred).map_values(f));
}

} // verus!
