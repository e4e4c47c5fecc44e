//! Bounded queues.
use crate::net::SocketAddr;
use ringbuf::traits::{Consumer as _, Observer as _, Producer as _};
use vstd::prelude::*;

verus! {

/// A bounded queue of bytes, held in a [`ringbuf::HeapRb`].
#[verifier::external_body]
pub struct ByteRing {
    rb: ringbuf::HeapRb<u8>,
}

/// What a [`ByteRing`] holds, the eldest byte first.
pub uninterp spec fn ring_bytes(ring: ByteRing) -> Seq<u8>;

/// How many bytes a [`ByteRing`] was made for.
pub uninterp spec fn ring_bytes_limit(ring: ByteRing) -> nat;

/// The smaller of two numbers.
pub open spec fn smaller(a: nat, b: nat) -> nat {
    if a < b {
        a
    } else {
        b
    }
}

impl ByteRing {
    /// [`ringbuf::SharedRb::new`]: an empty queue. It panics where the capacity is zero or is more
    /// than can be allocated.
    #[verifier::external_body]
    pub(crate) fn new(capacity: usize) -> (r: ByteRing)
        requires
            0 < capacity <= isize::MAX,
        ensures
            ring_bytes(r) == Seq::<u8>::empty(),
            ring_bytes_limit(r) == capacity,
    {
        ByteRing { rb: ringbuf::HeapRb::new(capacity) }
    }

    /// [`ringbuf::traits::Producer::push_slice`]: as much of the start of `data` as there is room
    /// for goes to the end of the queue.
    #[verifier::external_body]
    pub(crate) fn push_slice(&mut self, data: &[u8]) -> (r: usize)
        requires
            ring_bytes(*old(self)).len() <= ring_bytes_limit(*old(self)),
        ensures
            r == smaller(
                data@.len(),
                (ring_bytes_limit(*old(self)) - ring_bytes(*old(self)).len()) as nat,
            ),
            ring_bytes(*final(self)) == ring_bytes(*old(self)) + data@.take(r as int),
            ring_bytes_limit(*final(self)) == ring_bytes_limit(*old(self)),
    {
        self.rb.push_slice(data)
    }

    /// [`ringbuf::traits::Consumer::pop_slice`]: as many of the eldest bytes as `buf` has room for
    /// leave the queue and are copied to the start of `buf`.
    #[verifier::external_body]
    pub(crate) fn pop_slice(&mut self, buf: &mut [u8]) -> (r: usize)
        ensures
            r == smaller(old(buf)@.len(), ring_bytes(*old(self)).len()),
            final(buf)@ == ring_bytes(*old(self)).take(r as int) + old(buf)@.skip(r as int),
            ring_bytes(*final(self)) == ring_bytes(*old(self)).skip(r as int),
            ring_bytes_limit(*final(self)) == ring_bytes_limit(*old(self)),
    {
        self.rb.pop_slice(buf)
    }

    /// [`ringbuf::traits::Consumer::skip`]: the `count` eldest bytes, or all if there are fewer,
    /// leave the queue.
    #[verifier::external_body]
    pub(crate) fn skip(&mut self, count: usize) -> (r: usize)
        ensures
            r == smaller(count as nat, ring_bytes(*old(self)).len()),
            ring_bytes(*final(self)) == ring_bytes(*old(self)).skip(r as int),
            ring_bytes_limit(*final(self)) == ring_bytes_limit(*old(self)),
    {
        self.rb.skip(count)
    }

    /// [`ringbuf::traits::Consumer::clear`]: all bytes leave the queue.
    #[verifier::external_body]
    pub(crate) fn clear(&mut self) -> (r: usize)
        ensures
            r == ring_bytes(*old(self)).len(),
            ring_bytes(*final(self)) == Seq::<u8>::empty(),
            ring_bytes_limit(*final(self)) == ring_bytes_limit(*old(self)),
    {
        self.rb.clear()
    }

    /// [`ringbuf::traits::Consumer::iter`]: a copy of what the queue holds, in order.
    #[verifier::external_body]
    pub(crate) fn contents(&self) -> (r: Vec<u8>)
        ensures
            r@ == ring_bytes(*self),
    {
        self.rb.iter().copied().collect()
    }

    /// [`ringbuf::traits::Observer::is_empty`]: whether the queue holds nothing.
    #[verifier::external_body]
    pub(crate) fn is_empty(&self) -> (r: bool)
        ensures
            r == (ring_bytes(*self).len() == 0),
    {
        self.rb.is_empty()
    }

    /// [`ringbuf::traits::Observer::vacant_len`]: how many bytes there is room for.
    #[verifier::external_body]
    pub(crate) fn vacant_len(&self) -> (r: usize)
        requires
            ring_bytes(*self).len() <= ring_bytes_limit(*self),
        ensures
            r == ring_bytes_limit(*self) - ring_bytes(*self).len(),
    {
        self.rb.vacant_len()
    }
}

/// A datagram message for UDP-like sockets.
///
/// Each datagram carries its payload and an optional address:
/// - For received datagrams: the source address
/// - For sent datagrams: the destination address (or `None` if using a connected socket)
#[derive(Clone, Debug)]
pub struct DatagramMessage {
    /// The data payload.
    pub data: Vec<u8>,
    /// Source address (for RX) or destination address (for TX).
    pub addr: Option<SocketAddr>,
}

/// The value of a [`DatagramMessage`].
#[verifier::ext_equal]
pub struct MessageView {
    pub data: Seq<u8>,
    pub addr: Option<SocketAddr>,
}

impl View for DatagramMessage {
    type V = MessageView;

    open spec fn view(&self) -> MessageView {
        MessageView { data: self.data@, addr: self.addr }
    }
}

/// A bounded queue of messages, held in a [`ringbuf::HeapRb`].
#[verifier::external_body]
pub struct MessageRing {
    rb: ringbuf::HeapRb<DatagramMessage>,
}

/// What a [`MessageRing`] holds, the eldest message first.
pub uninterp spec fn ring_messages(ring: MessageRing) -> Seq<MessageView>;

/// How many messages a [`MessageRing`] was made for.
pub uninterp spec fn ring_messages_limit(ring: MessageRing) -> nat;

impl MessageRing {
    /// [`ringbuf::SharedRb::new`]: an empty queue. It panics where the capacity is zero or is more
    /// than can be allocated; a message takes less than 128 bytes.
    #[verifier::external_body]
    pub(crate) fn new(capacity: usize) -> (r: MessageRing)
        requires
            0 < capacity <= isize::MAX / 128,
        ensures
            ring_messages(r) == Seq::<MessageView>::empty(),
            ring_messages_limit(r) == capacity,
    {
        MessageRing { rb: ringbuf::HeapRb::new(capacity) }
    }

    /// [`ringbuf::traits::Producer::try_push`]: the message goes to the end of the queue, unless
    /// the queue is full.
    #[verifier::external_body]
    pub(crate) fn try_push(&mut self, message: DatagramMessage) -> (r: Result<(), DatagramMessage>)
        requires
            ring_messages(*old(self)).len() <= ring_messages_limit(*old(self)),
        ensures
            r is Ok <==> ring_messages(*old(self)).len() < ring_messages_limit(*old(self)),
            r is Err ==> r->Err_0@ == message@,
            ring_messages(*final(self)) == if r is Ok {
                ring_messages(*old(self)).push(message@)
            } else {
                ring_messages(*old(self))
            },
            ring_messages_limit(*final(self)) == ring_messages_limit(*old(self)),
    {
        self.rb.try_push(message)
    }

    /// [`ringbuf::traits::Consumer::try_pop`]: the eldest message leaves the queue, if there is one.
    #[verifier::external_body]
    pub(crate) fn try_pop(&mut self) -> (r: Option<DatagramMessage>)
        ensures
            r is Some <==> ring_messages(*old(self)).len() > 0,
            r is Some ==> r->Some_0@ == ring_messages(*old(self))[0],
            ring_messages(*final(self)) == if r is Some {
                ring_messages(*old(self)).skip(1)
            } else {
                ring_messages(*old(self))
            },
            ring_messages_limit(*final(self)) == ring_messages_limit(*old(self)),
    {
        self.rb.try_pop()
    }

    /// [`ringbuf::traits::Consumer::first`]: the eldest message, if there is one.
    #[verifier::external_body]
    pub(crate) fn first(&self) -> (r: Option<&DatagramMessage>)
        ensures
            r is Some <==> ring_messages(*self).len() > 0,
            r is Some ==> r->Some_0@ == ring_messages(*self)[0],
    {
        self.rb.first()
    }

    /// [`ringbuf::traits::Consumer::iter`]: the address and the size of each message, the eldest
    /// first.
    #[verifier::external_body]
    pub(crate) fn heads(&self) -> (r: Vec<(Option<SocketAddr>, usize)>)
        ensures
            r@.len() == ring_messages(*self).len(),
            forall|k: int|
                0 <= k < r@.len() ==> (#[trigger] r@[k]).0 == ring_messages(*self)[k].addr
                    && r@[k].1 == ring_messages(*self)[k].data.len(),
    {
        self.rb.iter().map(|message| (message.addr, message.data.len())).collect()
    }

    /// [`ringbuf::traits::Observer::is_empty`]: whether the queue holds nothing.
    #[verifier::external_body]
    pub(crate) fn is_empty(&self) -> (r: bool)
        ensures
            r == (ring_messages(*self).len() == 0),
    {
        self.rb.is_empty()
    }

    /// [`ringbuf::traits::Observer::is_full`]: whether there is no room for another message.
    #[verifier::external_body]
    pub(crate) fn is_full(&self) -> (r: bool)
        requires
            ring_messages(*self).len() <= ring_messages_limit(*self),
        ensures
            r == (ring_messages(*self).len() == ring_messages_limit(*self)),
    {
        self.rb.is_full()
    }
}

} // verus!
