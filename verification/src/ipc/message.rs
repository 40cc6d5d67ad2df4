//! Message passing.

use vstd::prelude::*;
use std::collections::BTreeMap;
use super::{IpcError, IpcResult};

verus! {

broadcast use vstd::std_specs::btree::group_btree_axioms;

/// Maximum message size in bytes.
pub const MAX_MESSAGE_SIZE: usize = 4096;

/// A message for IPC communication.
#[derive(Debug)]
pub struct Message {
    /// Source port.
    pub from: u32,
    /// Destination port.
    pub to: u32,
    /// Message type identifier.
    pub msg_type: u32,
    /// Payload.
    pub data: Vec<u8>,
}

impl Message {
    /// A message with the given header and payload.
    pub fn new(from: u32, to: u32, msg_type: u32, data: Vec<u8>) -> (r: Self)
        ensures
            r.from == from,
            r.to == to,
            r.msg_type == msg_type,
            r.data@ == data@,
    {
        Message { from, to, msg_type, data }
    }

    /// An empty message with a zeroed header, its payload buffer reserved
    /// for `capacity` bytes, at most the maximum message size.
    pub fn with_capacity(capacity: usize) -> (r: Self)
        ensures
            r.from == 0,
            r.to == 0,
            r.msg_type == 0,
            r.data@ == Seq::<u8>::empty(),
    {
        let cap = if capacity < MAX_MESSAGE_SIZE { capacity } else { MAX_MESSAGE_SIZE };
        Message { from: 0, to: 0, msg_type: 0, data: Vec::with_capacity(cap) }
    }

    /// Whether the payload is empty.
    pub fn is_empty(&self) -> (r: bool)
        ensures
            r == (self.data@.len() == 0),
    {
        self.data.is_empty()
    }

    /// The payload length in bytes.
    pub fn len(&self) -> (r: usize)
        ensures
            r == self.data@.len(),
    {
        self.data.len()
    }
}

impl Clone for Message {
    fn clone(&self) -> (r: Self)
        ensures
            r.from == self.from,
            r.to == self.to,
            r.msg_type == self.msg_type,
            r.data@ == self.data@,
    {
        Message { from: self.from, to: self.to, msg_type: self.msg_type, data: self.data.clone() }
    }
}

/// The queue after `send` of `msg` to a queue holding `q` with room for
/// `max_size` messages, and what `send` returns.
pub open spec fn send_spec(q: Seq<Message>, max_size: usize, msg: Message) -> (Seq<Message>, IpcResult<()>) {
    if q.len() >= max_size || msg.data@.len() > MAX_MESSAGE_SIZE {
        (q, Err(IpcError::QueueFull))
    } else {
        (q.push(msg), Ok(()))
    }
}

/// Message queue of a port: messages leave in the order they came.
pub struct MessageQueue {
    /// Port number.
    port: u32,
    /// Queued messages, oldest first.
    messages: Vec<Message>,
    /// Maximum number of queued messages.
    max_size: usize,
}

impl MessageQueue {
    /// The queued messages, oldest first.
    pub closed spec fn view(&self) -> Seq<Message> {
        self.messages@
    }

    /// The port number.
    pub closed spec fn port_spec(&self) -> u32 {
        self.port
    }

    /// The maximum number of queued messages.
    pub closed spec fn max_size_spec(&self) -> usize {
        self.max_size
    }

    /// An empty queue for `port` holding at most `max_size` messages.
    pub fn new(port: u32, max_size: usize) -> (r: Self)
        ensures
            r@ == Seq::<Message>::empty(),
            r.port_spec() == port,
            r.max_size_spec() == max_size,
    {
        MessageQueue { port, messages: Vec::new(), max_size }
    }

    /// Queue `msg`; refused with `QueueFull` when the queue is full or the
    /// payload exceeds the maximum message size.
    pub fn send(&mut self, msg: Message) -> (r: IpcResult<()>)
        ensures
            (final(self)@, r) == send_spec(old(self)@, old(self).max_size_spec(), msg),
            final(self).port_spec() == old(self).port_spec(),
            final(self).max_size_spec() == old(self).max_size_spec(),
    {
        if self.messages.len() >= self.max_size {
            return Err(IpcError::QueueFull);
        }
        if msg.len() > MAX_MESSAGE_SIZE {
            return Err(IpcError::QueueFull);
        }
        self.messages.push(msg);
        Ok(())
    }

    /// Take the oldest message; `QueueEmpty` when there is none.
    pub fn receive(&mut self) -> (r: IpcResult<Message>)
        ensures
            final(self).port_spec() == old(self).port_spec(),
            final(self).max_size_spec() == old(self).max_size_spec(),
            old(self)@.len() == 0 ==> r == Err::<Message, IpcError>(IpcError::QueueEmpty)
                && final(self)@ == old(self)@,
            old(self)@.len() > 0 ==> r == Ok::<Message, IpcError>(old(self)@[0])
                && final(self)@ == old(self)@.drop_first(),
    {
        if self.messages.is_empty() {
            return Err(IpcError::QueueEmpty);
        }
        let m = self.messages.remove(0);
        assert(self.messages@ =~= old(self)@.drop_first());
        Ok(m)
    }

    /// Take the oldest message without waiting.
    pub fn try_receive(&mut self) -> (r: IpcResult<Message>)
        ensures
            final(self).port_spec() == old(self).port_spec(),
            final(self).max_size_spec() == old(self).max_size_spec(),
            old(self)@.len() == 0 ==> r == Err::<Message, IpcError>(IpcError::QueueEmpty)
                && final(self)@ == old(self)@,
            old(self)@.len() > 0 ==> r == Ok::<Message, IpcError>(old(self)@[0])
                && final(self)@ == old(self)@.drop_first(),
    {
        self.receive()
    }

    /// The number of pending messages.
    pub fn len(&self) -> (r: usize)
        ensures
            r == self@.len(),
    {
        self.messages.len()
    }

    /// Whether no message is pending.
    pub fn is_empty(&self) -> (r: bool)
        ensures
            r == (self@.len() == 0),
    {
        self.messages.is_empty()
    }
}

/// A queue never holds more than its room: a send to a queue within its
/// room keeps it within its room, and a send is refused exactly when the
/// queue is full or the payload is over the size limit, leaving the queue
/// as it was; an accepted one adds exactly that message at the back.
pub proof fn lemma_send_bounded(q: Seq<Message>, max_size: usize, msg: Message)
    requires
        q.len() <= max_size,
    ensures
        send_spec(q, max_size, msg).0.len() <= max_size,
        (send_spec(q, max_size, msg).1 is Err) == (q.len() == max_size || msg.data@.len() > MAX_MESSAGE_SIZE),
        send_spec(q, max_size, msg).1 is Err ==> send_spec(q, max_size, msg).0 == q,
        send_spec(q, max_size, msg).1 is Ok ==> {
            &&& send_spec(q, max_size, msg).0.len() == q.len() + 1
            &&& send_spec(q, max_size, msg).0.last() == msg
            &&& send_spec(q, max_size, msg).0.take(q.len() as int) == q
        },
{
    assert(q.push(msg).take(q.len() as int) =~= q);
}

/// A message sent to a queue leaves it after every message queued before
/// it and before every message sent after it: of two messages sent in turn
/// to a queue with room for both, receiving twice gives them in that order.
pub proof fn lemma_send_receive_fifo(q: Seq<Message>, max_size: usize, a: Message, b: Message)
    requires
        q.len() + 2 <= max_size,
        a.data@.len() <= MAX_MESSAGE_SIZE,
        b.data@.len() <= MAX_MESSAGE_SIZE,
    ensures
        ({
            let q1 = send_spec(q, max_size, a).0;
            let q2 = send_spec(q1, max_size, b).0;
            &&& send_spec(q, max_size, a).1 is Ok
            &&& send_spec(q1, max_size, b).1 is Ok
            &&& q2 == q + seq![a, b]
            &&& q2[q.len() as int] == a
            &&& q2[q.len() as int + 1] == b
        }),
{
    assert(q.push(a).push(b) =~= q + seq![a, b]);
}

/// The registry of message ports: numbers are handed out from 1 upwards.
pub struct MessagePortRegistry {
    /// The number the next port gets.
    next_port: u32,
    /// Maximum queue size of each port created.
    ports: BTreeMap<u32, usize>,
}

impl MessagePortRegistry {
    /// The number the next port gets.
    pub closed spec fn next_port_spec(&self) -> u32 {
        self.next_port
    }

    /// The ports created, with the maximum size of their queues.
    pub closed spec fn ports_spec(&self) -> Map<u32, usize> {
        self.ports@
    }

    /// An empty registry whose first port is 1.
    pub fn new() -> (r: Self)
        ensures
            r.next_port_spec() == 1,
            r.ports_spec() == Map::<u32, usize>::empty(),
    {
        MessagePortRegistry { next_port: 1, ports: BTreeMap::new() }
    }

    /// The number the next port gets.
    pub fn next_port(&self) -> (r: u32)
        ensures
            r == self.next_port_spec(),
    {
        self.next_port
    }

    /// Take the next port number.
    fn allocate_port(&mut self) -> (r: u32)
        requires
            old(self).next_port_spec() < u32::MAX,
        ensures
            r == old(self).next_port_spec(),
            final(self).next_port_spec() == r + 1,
            final(self).ports_spec() == old(self).ports_spec(),
    {
        let port = self.next_port;
        self.next_port = self.next_port + 1;
        port
    }

    /// Record `port` and make its queue.
    fn create_queue(&mut self, port: u32, max_size: usize) -> (r: MessageQueue)
        ensures
            r@ == Seq::<Message>::empty(),
            r.port_spec() == port,
            r.max_size_spec() == max_size,
            final(self).next_port_spec() == old(self).next_port_spec(),
            final(self).ports_spec() == old(self).ports_spec().insert(port, max_size),
    {
        self.ports.insert(port, max_size);
        MessageQueue::new(port, max_size)
    }
}

/// Create a message port with room for `max_size` messages: it gets the
/// registry's next port number.
pub fn create_port(registry: &mut MessagePortRegistry, max_size: usize) -> (r: MessageQueue)
    requires
        old(registry).next_port_spec() < u32::MAX,
    ensures
        r@ == Seq::<Message>::empty(),
        r.port_spec() == old(registry).next_port_spec(),
        r.max_size_spec() == max_size,
        final(registry).next_port_spec() == old(registry).next_port_spec() + 1,
        final(registry).ports_spec() == old(registry).ports_spec().insert(
            old(registry).next_port_spec(),
            max_size,
        ),
{
    let port = registry.allocate_port();
    registry.create_queue(port, max_size)
}

} // verus!
