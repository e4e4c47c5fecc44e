//! Socket channels for decoupling user I/O from network processing.
//!
//! User code reads from the RX queue of a channel and writes to its TX queue. The network worker
//! fills the RX queue with what the network received, and drains the TX queue into it.
use crate::bits::lemma_no_flags;
use crate::bytes;
use crate::event::Events;
use crate::net::errors::{ReceiveError, SendError, SocketAsyncError};
use crate::net::ring::{
    ring_bytes, ring_bytes_limit, ring_messages, ring_messages_limit, smaller, ByteRing,
    DatagramMessage, MessageRing, MessageView,
};
use crate::net::{ReceiveFlags, SendFlags, SocketAddr, SOCKET_BUFFER_SIZE};
use vstd::prelude::*;

verus! {

/// State of a socket.
#[derive(Debug, Clone, Copy, PartialEq, Eq, Structural)]
pub enum SocketState {
    /// Socket is closed or in initial state
    Closed,
    /// Socket is connecting (TCP SYN sent)
    Connecting,
    /// Socket is connected and ready for data transfer
    Connected,
    /// Socket is listening for incoming connections
    Listening,
    /// Socket encountered an error
    Error,
}

/// The state with a number. Numbers that no state has stand for an error.
pub open spec fn state_with_number(v: u32) -> SocketState {
    if v == 0 {
        SocketState::Closed
    } else if v == 1 {
        SocketState::Connecting
    } else if v == 2 {
        SocketState::Connected
    } else if v == 3 {
        SocketState::Listening
    } else {
        SocketState::Error
    }
}

impl SocketState {
    /// The number of the state.
    pub open spec fn number_spec(self) -> u32 {
        match self {
            SocketState::Closed => 0,
            SocketState::Connecting => 1,
            SocketState::Connected => 2,
            SocketState::Listening => 3,
            SocketState::Error => 4,
        }
    }

    /// The number of the state.
    pub fn number(self) -> (r: u32)
        ensures
            r == self.number_spec(),
    {
        match self {
            SocketState::Closed => 0,
            SocketState::Connecting => 1,
            SocketState::Connected => 2,
            SocketState::Listening => 3,
            SocketState::Error => 4,
        }
    }
}

impl From<u32> for SocketState {
    fn from(v: u32) -> (r: Self) {
        match v {
            0 => SocketState::Closed,
            1 => SocketState::Connecting,
            2 => SocketState::Connected,
            3 => SocketState::Listening,
            _ => SocketState::Error,
        }
    }
}

impl vstd::std_specs::convert::FromSpecImpl<u32> for SocketState {
    open spec fn obeys_from_spec() -> bool {
        true
    }

    open spec fn from_spec(v: u32) -> Self {
        state_with_number(v)
    }
}

/// A state is found again by its number.
pub proof fn lemma_state_numbers(s: SocketState)
    ensures
        state_with_number(s.number_spec()) == s,
{
}

/// `a - b`, wrapping around at zero.
pub open spec fn wrapping_less(a: usize, b: int) -> usize {
    if a >= b {
        (a - b) as usize
    } else {
        (a - b + usize::MAX + 1) as usize
    }
}

/// `a + b`, wrapping around at the largest number.
pub open spec fn wrapping_more(a: usize, b: int) -> usize {
    if a + b <= usize::MAX {
        (a + b) as usize
    } else {
        (a + b - usize::MAX - 1) as usize
    }
}

/// The value of a [`StreamSocketChannel`].
#[verifier::ext_equal]
pub struct StreamView {
    /// Received bytes that have not been read.
    pub rx: Seq<u8>,
    pub rx_capacity: nat,
    /// Written bytes that have not been sent.
    pub tx: Seq<u8>,
    pub tx_capacity: nat,
    pub state: SocketState,
    pub read_shutdown: bool,
    pub write_shutdown: bool,
    pub rx_available: usize,
    pub tx_available: usize,
    pub error: Option<SocketAsyncError>,
    /// The notifications that observers are to get, in order.
    pub notified: Seq<Events>,
}

impl StreamView {
    /// Whether the queues are within their capacities.
    pub open spec fn is_bounded(self) -> bool {
        &&& self.rx.len() <= self.rx_capacity <= isize::MAX
        &&& self.tx.len() <= self.tx_capacity <= isize::MAX
    }

    /// Whether the counters agree with the queues. They do until the readable state is set by hand.
    pub open spec fn is_counted(self) -> bool {
        &&& self.rx_available == self.rx.len()
        &&& self.tx_available == self.tx_capacity - self.tx.len()
    }

    /// The channel with one more notification.
    pub open spec fn notifying(self, bits: u32) -> StreamView {
        StreamView { notified: self.notified.push(Events { bits }), ..self }
    }

    /// A new channel.
    pub open spec fn fresh(rx_capacity: nat, tx_capacity: nat) -> StreamView {
        StreamView {
            rx: Seq::empty(),
            rx_capacity,
            tx: Seq::empty(),
            tx_capacity,
            state: SocketState::Closed,
            read_shutdown: false,
            write_shutdown: false,
            rx_available: 0,
            tx_available: tx_capacity as usize,
            error: None,
            notified: Seq::empty(),
        }
    }

    /// The channel after the `n` eldest received bytes have been taken out.
    pub open spec fn rx_taken(self, n: int) -> StreamView {
        StreamView {
            rx: self.rx.skip(n),
            rx_available: wrapping_less(self.rx_available, n),
            ..self
        }
    }

    /// The channel after bytes have been written to it.
    pub open spec fn tx_added(self, data: Seq<u8>) -> StreamView {
        StreamView {
            tx: self.tx + data,
            tx_available: wrapping_less(self.tx_available, data.len() as int),
            ..self
        }
    }

    /// The channel after bytes have been received.
    pub open spec fn rx_added(self, data: Seq<u8>) -> StreamView {
        if data.len() == 0 {
            self
        } else {
            StreamView {
                rx: self.rx + data,
                rx_available: wrapping_more(self.rx_available, data.len() as int),
                ..self
            }.notifying(Events::IN)
        }
    }

    /// The channel after the `n` eldest written bytes have been sent.
    pub open spec fn tx_taken(self, n: int) -> StreamView {
        if n == 0 {
            self
        } else {
            StreamView {
                tx: self.tx.skip(n),
                tx_available: wrapping_more(self.tx_available, n),
                ..self
            }.notifying(Events::OUT)
        }
    }

    /// The channel after its state has been set.
    pub open spec fn in_state(self, state: SocketState) -> StreamView {
        let changed = StreamView { state, ..self };
        if state == self.state {
            self
        } else {
            match state {
                SocketState::Connected => changed.notifying(Events::OUT),
                SocketState::Closed => changed.notifying(Events::HUP),
                SocketState::Error => changed.notifying(Events::ERR),
                _ => changed,
            }
        }
    }

    /// The channel after its readable state has been set by hand.
    pub open spec fn set_readable(self, readable: bool) -> StreamView {
        StreamView {
            rx_available: if readable {
                1
            } else {
                0
            },
            ..self
        }
    }

    /// The events that hold of the channel.
    pub open spec fn events(self) -> u32 {
        let readable = if self.rx_available > 0 {
            Events::IN
        } else {
            0
        };
        match self.state {
            SocketState::Closed => readable | (Events::HUP | Events::OUT),
            SocketState::Error => readable | (Events::ERR | Events::OUT),
            SocketState::Connected => if self.tx_available > 0 {
                readable | Events::OUT
            } else {
                readable
            },
            _ => readable,
        }
    }
}

/// What reading from a stream does.
pub open spec fn stream_reads(
    before: StreamView,
    buf_before: Seq<u8>,
    flags: ReceiveFlags,
    after: StreamView,
    buf_after: Seq<u8>,
    r: Result<usize, ReceiveError>,
) -> bool {
    if before.read_shutdown || before.state != SocketState::Connected {
        &&& r is Err
        &&& r->Err_0 == ReceiveError::SocketInInvalidState
        &&& after == before
        &&& buf_after == buf_before
    } else {
        let copied = smaller(buf_before.len(), before.rx.len()) as int;
        &&& r is Ok
        &&& if flags.has(ReceiveFlags::DISCARD) {
            &&& r->Ok_0 == before.rx.len()
            &&& buf_after == buf_before
        } else {
            &&& r->Ok_0 == if flags.has(ReceiveFlags::TRUNC) {
                before.rx.len() as int
            } else {
                copied
            }
            &&& buf_after == before.rx.take(copied) + buf_before.skip(copied)
        }
        &&& after == before.rx_taken(r->Ok_0 as int)
    }
}

/// What writing to a stream does.
pub open spec fn stream_writes(
    before: StreamView,
    data: Seq<u8>,
    after: StreamView,
    r: Result<usize, SendError>,
) -> bool {
    let n = smaller(data.len(), (before.tx_capacity - before.tx.len()) as nat) as int;
    if before.write_shutdown || before.state != SocketState::Connected {
        r is Err && r->Err_0 == SendError::SocketInInvalidState && after == before
    } else if n == 0 {
        r is Err && r->Err_0 == SendError::BufferFull && after == before
    } else {
        r is Ok && r->Ok_0 == n && after == before.tx_added(data.take(n))
    }
}

/// What the arrival of bytes does: as many are taken as there is room for.
pub open spec fn stream_arrives(
    before: StreamView,
    data: Seq<u8>,
    after: StreamView,
    r: usize,
) -> bool {
    &&& r == smaller(data.len(), (before.rx_capacity - before.rx.len()) as nat)
    &&& after == before.rx_added(data.take(r as int))
}

/// What taking out bytes to send does: as many are taken as the buffer has room for.
pub open spec fn stream_leaves(
    before: StreamView,
    buf_before: Seq<u8>,
    after: StreamView,
    buf_after: Seq<u8>,
    r: usize,
) -> bool {
    &&& r == smaller(buf_before.len(), before.tx.len())
    &&& buf_after == before.tx.take(r as int) + buf_before.skip(r as int)
    &&& after == before.tx_taken(r as int)
}

/// A channel for stream (TCP) socket communication.
pub struct StreamSocketChannel {
    rx: ByteRing,
    tx: ByteRing,
    /// Current socket state
    state: SocketState,
    /// Whether the read side is shut down (SHUT_RD)
    read_shutdown: bool,
    /// Whether the write side is shut down (SHUT_WR)
    write_shutdown: bool,
    /// Bytes available in RX buffer (for quick poll checks)
    rx_available: usize,
    /// Space available in TX buffer (for quick poll checks)
    tx_available: usize,
    /// Socket error
    socket_error: Option<SocketAsyncError>,
    /// Event notifications that have not been handed on
    notified: Vec<Events>,
}

impl View for StreamSocketChannel {
    type V = StreamView;

    closed spec fn view(&self) -> StreamView {
        StreamView {
            rx: ring_bytes(self.rx),
            rx_capacity: ring_bytes_limit(self.rx),
            tx: ring_bytes(self.tx),
            tx_capacity: ring_bytes_limit(self.tx),
            state: self.state,
            read_shutdown: self.read_shutdown,
            write_shutdown: self.write_shutdown,
            rx_available: self.rx_available,
            tx_available: self.tx_available,
            error: self.socket_error,
            notified: self.notified@,
        }
    }
}

impl StreamSocketChannel {
    /// Create a new stream socket channel with default buffer sizes.
    pub fn new() -> (r: Self)
        ensures
            r@ == StreamView::fresh(SOCKET_BUFFER_SIZE as nat, SOCKET_BUFFER_SIZE as nat),
            r@.is_bounded(),
            r@.is_counted(),
    {
        Self::new_with_capacity(SOCKET_BUFFER_SIZE, SOCKET_BUFFER_SIZE)
    }

    /// Create a new stream socket channel with specified buffer capacities.
    pub fn new_with_capacity(rx_capacity: usize, tx_capacity: usize) -> (r: Self)
        requires
            0 < rx_capacity <= isize::MAX,
            0 < tx_capacity <= isize::MAX,
        ensures
            r@ == StreamView::fresh(rx_capacity as nat, tx_capacity as nat),
            r@.is_bounded(),
            r@.is_counted(),
    {
        let r = StreamSocketChannel {
            rx: ByteRing::new(rx_capacity),
            tx: ByteRing::new(tx_capacity),
            state: SocketState::Closed,
            read_shutdown: false,
            write_shutdown: false,
            rx_available: 0,
            tx_available: tx_capacity,
            socket_error: None,
            notified: Vec::new(),
        };
        assert(r@ =~= StreamView::fresh(rx_capacity as nat, tx_capacity as nat));
        r
    }

    /// Read data from the socket into the provided buffer, without blocking.
    pub fn try_read(
        &mut self,
        buf: &mut [u8],
        flags: ReceiveFlags,
        source_addr: Option<&mut Option<SocketAddr>>,
    ) -> (r: Result<usize, ReceiveError>)
        requires
            old(self)@.is_bounded(),
        ensures
            final(self)@.is_bounded(),
            old(self)@.is_counted() ==> final(self)@.is_counted(),
            stream_reads(old(self)@, old(buf)@, flags, final(self)@, final(buf)@, r),
            match source_addr {
                Some(p) => *final(p) == if r is Ok {
                    None
                } else {
                    *p
                },
                None => true,
            },
    {
        if self.read_shutdown {
            return Err(ReceiveError::SocketInInvalidState);
        }
        if self.state != SocketState::Connected {
            return Err(ReceiveError::SocketInInvalidState);
        }
        let ghost before = self@;
        let n: usize = if flags.contains(ReceiveFlags::DISCARD) {
            self.rx.clear()
        } else if flags.contains(ReceiveFlags::TRUNC) {
            let n1: usize = self.rx.pop_slice(buf);
            let n2: usize = self.rx.clear();
            n1 + n2
        } else {
            self.rx.pop_slice(buf)
        };
        if let Some(source_addr) = source_addr {
            *source_addr = None;
        }
        self.rx_available = self.rx_available.wrapping_sub(n);
        assert(self@ =~= before.rx_taken(n as int));
        Ok(n)
    }

    /// Write data to the socket from the provided buffer, without blocking. The data will be
    /// drained by the network worker.
    pub fn try_write(&mut self, buf: &[u8]) -> (r: Result<usize, SendError>)
        requires
            old(self)@.is_bounded(),
        ensures
            final(self)@.is_bounded(),
            old(self)@.is_counted() ==> final(self)@.is_counted(),
            stream_writes(old(self)@, buf@, final(self)@, r),
    {
        if self.write_shutdown {
            return Err(SendError::SocketInInvalidState);
        }
        if self.state != SocketState::Connected {
            return Err(SendError::SocketInInvalidState);
        }
        let ghost before = self@;
        let n: usize = self.tx.push_slice(buf);
        if n > 0 {
            self.tx_available = self.tx_available.wrapping_sub(n);
            assert(self@ =~= before.tx_added(buf@.take(n as int)));
            Ok(n)
        } else {
            assert(before.tx + buf@.take(0) =~= before.tx);
            assert(self@ =~= before);
            Err(SendError::BufferFull)
        }
    }

    /// Check if the socket is writable (has buffer space).
    pub fn is_writable(&self) -> (r: bool)
        ensures
            r == (self@.tx_available > 0),
    {
        self.tx_available > 0
    }

    /// Shutdown the read side of the socket.
    pub fn shutdown_read(&mut self)
        ensures
            final(self)@ == (StreamView { read_shutdown: true, ..old(self)@ }),
    {
        self.read_shutdown = true;
    }

    /// Shutdown the write side of the socket.
    pub fn shutdown_write(&mut self)
        ensures
            final(self)@ == (StreamView { write_shutdown: true, ..old(self)@ }),
    {
        self.write_shutdown = true;
    }

    /// The events that hold of the channel.
    pub fn check_io_events(&self) -> (r: Events)
        ensures
            r.bits == self@.events(),
    {
        let mut events: u32 = 0;
        if self.is_readable() {
            events = Events::IN;
        }
        match self.state {
            SocketState::Closed => {
                events = events | (Events::HUP | Events::OUT);
            },
            SocketState::Error => {
                events = events | (Events::ERR | Events::OUT);
            },
            SocketState::Connected => {
                if self.is_writable() {
                    events = events | Events::OUT;
                }
            },
            _ => {},
        }
        Events { bits: events }
    }

    /// Push received data from the network into the RX buffer, as far as there is room. Returns
    /// the number of bytes pushed.
    pub fn push_rx_data(&mut self, data: &[u8]) -> (r: usize)
        requires
            old(self)@.is_bounded(),
        ensures
            final(self)@.is_bounded(),
            old(self)@.is_counted() ==> final(self)@.is_counted(),
            stream_arrives(old(self)@, data@, final(self)@, r),
    {
        let ghost before = self@;
        let n: usize = self.rx.push_slice(data);
        if n > 0 {
            self.rx_available = self.rx_available.wrapping_add(n);
            self.notified.push(Events { bits: Events::IN });
        } else {
            assert(before.rx + data@.take(0) =~= before.rx);
        }
        assert(self@ =~= before.rx_added(data@.take(n as int)));
        n
    }

    /// Push received data from the network into the RX buffer.
    ///
    /// The closure is told how many bytes there is room for, and gives at most as many. It is not
    /// called when there is no room. Returns the number of bytes pushed.
    pub fn push_rx_data_with<F: FnOnce(usize) -> Vec<u8>>(&mut self, f: F) -> (r: usize)
        requires
            old(self)@.is_bounded(),
            ({
                let room = (old(self)@.rx_capacity - old(self)@.rx.len()) as usize;
                &&& f.requires((room,))
                &&& forall|data: Vec<u8>| #[trigger] f.ensures((room,), data) ==> data@.len() <= room
            }),
        ensures
            final(self)@.is_bounded(),
            old(self)@.is_counted() ==> final(self)@.is_counted(),
            ({
                let room = (old(self)@.rx_capacity - old(self)@.rx.len()) as usize;
                if room == 0 {
                    r == 0 && final(self)@ == old(self)@
                } else {
                    exists|data: Vec<u8>| #[trigger]
                        f.ensures((room,), data) && r == data@.len() && final(self)@ == old(
                            self,
                        )@.rx_added(data@)
                }
            }),
    {
        let room: usize = self.rx.vacant_len();
        if room == 0 {
            return 0;
        }
        let data = f(room);
        let n: usize = self.push_rx_data(data.as_slice());
        assert(data@.take(n as int) =~= data@);
        n
    }

    /// Pop data from the TX buffer to send over the network. Returns the number of bytes popped
    /// into `buf`.
    pub fn pop_tx_data(&mut self, buf: &mut [u8]) -> (r: usize)
        requires
            old(self)@.is_bounded(),
        ensures
            final(self)@.is_bounded(),
            old(self)@.is_counted() ==> final(self)@.is_counted(),
            stream_leaves(old(self)@, old(buf)@, final(self)@, final(buf)@, r),
    {
        let ghost before = self@;
        let n: usize = self.tx.pop_slice(buf);
        if n > 0 {
            self.tx_available = self.tx_available.wrapping_add(n);
            self.notified.push(Events { bits: Events::OUT });
        } else {
            assert(before.tx.skip(0) =~= before.tx);
        }
        assert(self@ =~= before.tx_taken(n as int));
        n
    }

    /// A copy of the data that waits to be sent.
    pub fn pending_tx(&self) -> (r: Vec<u8>)
        ensures
            r@ == self@.tx,
    {
        self.tx.contents()
    }

    /// Remove the `count` eldest bytes that wait to be sent, after they have been sent.
    pub fn consume_tx(&mut self, count: usize)
        requires
            old(self)@.is_bounded(),
            count <= old(self)@.tx.len(),
        ensures
            final(self)@.is_bounded(),
            old(self)@.is_counted() ==> final(self)@.is_counted(),
            final(self)@ == old(self)@.tx_taken(count as int),
    {
        let ghost before = self@;
        if count > 0 {
            let n: usize = self.tx.skip(count);
            self.tx_available = self.tx_available.wrapping_add(n);
            self.notified.push(Events { bits: Events::OUT });
        }
        assert(self@ =~= before.tx_taken(count as int));
    }

    /// Pop data from the TX buffer to send over the network.
    ///
    /// The closure receives the data that waits to be sent, and returns how many bytes it consumed
    /// from the start of it. It is not called when nothing waits. Returns the number of bytes
    /// consumed.
    pub fn pop_tx_data_with<F: FnOnce(&[u8]) -> usize>(&mut self, f: F) -> (r: usize)
        requires
            old(self)@.is_bounded(),
            forall|data: &[u8]| data@ == old(self)@.tx ==> #[trigger] f.requires((data,)),
            forall|data: &[u8], n: usize|
                data@ == old(self)@.tx && #[trigger] f.ensures((data,), n) ==> n <= data@.len(),
        ensures
            final(self)@.is_bounded(),
            old(self)@.is_counted() ==> final(self)@.is_counted(),
            final(self)@ == old(self)@.tx_taken(r as int),
            if old(self)@.tx.len() == 0 {
                r == 0
            } else {
                exists|data: &[u8]| data@ == old(self)@.tx && #[trigger] f.ensures((data,), r)
            },
    {
        if self.tx.is_empty() {
            return 0;
        }
        let data = self.pending_tx();
        let slice = data.as_slice();
        let n: usize = f(slice);
        self.consume_tx(n);
        n
    }

    /// Check if the socket has data available for reading.
    pub fn is_readable(&self) -> (r: bool)
        ensures
            r == (self@.rx_available > 0),
    {
        self.rx_available > 0
    }

    /// Manually set the readable state.
    ///
    /// This is used for server sockets to indicate that a connection is ready to accept.
    pub fn set_readable(&mut self, readable: bool)
        ensures
            final(self)@ == old(self)@.set_readable(readable),
    {
        if readable {
            self.rx_available = 1;
        } else {
            self.rx_available = 0;
        }
    }

    /// Check if there is data in the TX buffer waiting to be sent.
    pub fn has_pending_tx(&self) -> (r: bool)
        ensures
            r == (self@.tx.len() > 0),
    {
        !self.tx.is_empty()
    }

    /// Get the available space in the RX buffer.
    pub fn rx_space(&self) -> (r: usize)
        requires
            self@.is_bounded(),
        ensures
            r == self@.rx_capacity - self@.rx.len(),
    {
        self.rx.vacant_len()
    }

    /// Set the socket state and notify observers of state changes.
    ///
    /// State transitions trigger appropriate event notifications:
    /// - `Connected` -> `Events::OUT` (socket is now writable)
    /// - `Closed` -> `Events::HUP` (hang up)
    /// - `Error` -> `Events::ERR` (error condition)
    pub fn set_state(&mut self, state: SocketState)
        ensures
            final(self)@ == old(self)@.in_state(state),
    {
        if self.state == state {
            return;
        }
        let ghost before = self@;
        self.state = state;
        match state {
            SocketState::Connected => {
                self.notified.push(Events { bits: Events::OUT });
            },
            SocketState::Closed => {
                self.notified.push(Events { bits: Events::HUP });
            },
            SocketState::Error => {
                self.notified.push(Events { bits: Events::ERR });
            },
            _ => {},
        }
        assert(self@ =~= before.in_state(state));
    }

    /// Get the current socket state.
    pub fn state(&self) -> (r: SocketState)
        ensures
            r == self@.state,
    {
        self.state
    }

    /// Notify observers of an I/O event.
    pub fn notify_io_event(&mut self, events: Events)
        ensures
            final(self)@ == old(self)@.notifying(events.bits),
    {
        let ghost before = self@;
        self.notified.push(events);
        assert(self@ =~= before.notifying(events.bits));
    }

    /// Set the async socket error.
    pub fn set_async_error(&mut self, error: SocketAsyncError)
        ensures
            final(self)@ == (StreamView { error: Some(error), ..old(self)@ }),
    {
        self.socket_error = Some(error);
    }

    /// Clear the async socket error.
    pub fn clear_async_error(&mut self)
        ensures
            final(self)@ == (StreamView { error: None, ..old(self)@ }),
    {
        self.socket_error = None;
    }

    /// Read and optionally clear the async socket error.
    pub fn get_async_error(&mut self, clear: bool) -> (r: Option<SocketAsyncError>)
        ensures
            r == old(self)@.error,
            final(self)@ == if clear {
                StreamView { error: None, ..old(self)@ }
            } else {
                old(self)@
            },
    {
        let error = self.socket_error;
        if clear {
            self.socket_error = None;
        }
        error
    }

    /// Take the notifications that observers are to get.
    pub fn take_notifications(&mut self) -> (r: Vec<Events>)
        ensures
            r@ == old(self)@.notified,
            final(self)@ == (StreamView { notified: Seq::empty(), ..old(self)@ }),
    {
        let ghost before = self@;
        let mut taken: Vec<Events> = Vec::new();
        taken.append(&mut self.notified);
        assert(taken@ =~= before.notified);
        assert(self@ =~= (StreamView { notified: Seq::empty(), ..before }));
        taken
    }
}

impl Default for StreamSocketChannel {
    fn default() -> (r: Self)
        ensures
            r@ == StreamView::fresh(SOCKET_BUFFER_SIZE as nat, SOCKET_BUFFER_SIZE as nat),
    {
        Self::new()
    }
}

/// What was written to a channel comes out in order: bytes that wait to be sent, then the new ones.
pub proof fn lemma_stream_is_fifo(v: StreamView, data: Seq<u8>, n: int)
    requires
        0 <= n <= v.tx.len(),
    ensures
        v.tx_added(data).tx_taken(n).tx == v.tx.skip(n) + data,
        v.tx_added(data).tx_taken(v.tx.len() as int).tx.take(data.len() as int) == data,
{
    assert((v.tx + data).skip(n) =~= v.tx.skip(n) + data);
    assert((v.tx + data).skip(v.tx.len() as int) =~= data);
    assert(data.take(data.len() as int) =~= data);
    assert((v.tx + data).skip(0) =~= v.tx + data);
}

/// What the network receives is what is read from the channel, in order.
pub proof fn lemma_received_is_read(v: StreamView, data: Seq<u8>, buf: Seq<u8>)
    requires
        v.is_bounded(),
        v.rx.len() == 0,
        data.len() <= v.rx_capacity,
        buf.len() >= data.len(),
        v.state == SocketState::Connected,
        !v.read_shutdown,
    ensures
        forall|after: StreamView, buf_after: Seq<u8>, r: Result<usize, ReceiveError>| #[trigger]
            stream_reads(
                v.rx_added(data),
                buf,
                ReceiveFlags { bits: 0 },
                after,
                buf_after,
                r,
            ) ==> r == Ok::<usize, ReceiveError>(data.len() as usize) && buf_after.take(
                data.len() as int,
            ) == data && after.rx.len() == 0,
{
    let flags = ReceiveFlags { bits: 0 };
    assert(!flags.has(ReceiveFlags::DISCARD) && !flags.has(ReceiveFlags::TRUNC)) by {
        lemma_no_flags();
    }
    assert(v.rx_added(data).rx =~= data);
    assert forall|after: StreamView, buf_after: Seq<u8>, r: Result<usize, ReceiveError>| #[trigger]
        stream_reads(v.rx_added(data), buf, flags, after, buf_after, r) implies r
        == Ok::<usize, ReceiveError>(data.len() as usize) && buf_after.take(data.len() as int)
        == data && after.rx.len() == 0 by {
        assert(data.take(data.len() as int) =~= data);
        assert((data + buf.skip(data.len() as int)).take(data.len() as int) =~= data);
    }
}

/// Maximum number of datagrams in queue.
pub const DEFAULT_DATAGRAM_QUEUE_SIZE: usize = 64;

/// The value of a [`DatagramSocketChannel`].
#[verifier::ext_equal]
pub struct DatagramView {
    /// Received messages that have not been read.
    pub rx: Seq<MessageView>,
    /// Messages that have not been sent.
    pub tx: Seq<MessageView>,
    /// How many messages each of the two queues has room for.
    pub capacity: nat,
    pub rx_count: usize,
    pub tx_space: usize,
    /// Local port the socket is bound to (0 if unbound).
    pub local_port: u16,
    /// Whether a default destination has been set.
    pub is_connected: bool,
    pub error: Option<SocketAsyncError>,
    /// The notifications that observers are to get, in order.
    pub notified: Seq<Events>,
}

impl DatagramView {
    /// Whether the queues are within their capacities.
    pub open spec fn is_bounded(self) -> bool {
        &&& self.rx.len() <= self.capacity <= isize::MAX
        &&& self.tx.len() <= self.capacity
    }

    /// Whether the counters agree with the queues. They do until the readable state is set by hand.
    pub open spec fn is_counted(self) -> bool {
        &&& self.rx_count == self.rx.len()
        &&& self.tx_space == self.capacity - self.tx.len()
    }

    /// A new channel.
    pub open spec fn fresh(capacity: nat) -> DatagramView {
        DatagramView {
            rx: Seq::empty(),
            tx: Seq::empty(),
            capacity,
            rx_count: 0,
            tx_space: capacity as usize,
            local_port: 0,
            is_connected: false,
            error: None,
            notified: Seq::empty(),
        }
    }

    /// The channel with one more notification.
    pub open spec fn notifying(self, bits: u32) -> DatagramView {
        DatagramView { notified: self.notified.push(Events { bits }), ..self }
    }

    /// The channel after its eldest received message has been taken out.
    pub open spec fn rx_taken(self) -> DatagramView {
        DatagramView {
            rx: self.rx.skip(1),
            rx_count: wrapping_less(self.rx_count, 1),
            ..self
        }
    }

    /// The channel after a message has been received.
    pub open spec fn rx_added(self, message: MessageView) -> DatagramView {
        DatagramView {
            rx: self.rx.push(message),
            rx_count: wrapping_more(self.rx_count, 1),
            ..self
        }.notifying(Events::IN)
    }

    /// The channel after a message has been queued for sending.
    pub open spec fn tx_added(self, message: MessageView) -> DatagramView {
        DatagramView {
            tx: self.tx.push(message),
            tx_space: wrapping_less(self.tx_space, 1),
            ..self
        }
    }

    /// The channel after its eldest message has been sent.
    pub open spec fn tx_taken(self) -> DatagramView {
        DatagramView {
            tx: self.tx.skip(1),
            tx_space: wrapping_more(self.tx_space, 1),
            ..self
        }.notifying(Events::OUT)
    }

    /// The channel after its readable state has been set by hand.
    pub open spec fn set_readable(self, readable: bool) -> DatagramView {
        DatagramView {
            rx_count: if readable {
                1
            } else {
                0
            },
            ..self
        }
    }

    /// The events that hold of the channel.
    pub open spec fn events(self) -> u32 {
        (if self.rx_count > 0 {
            Events::IN
        } else {
            0
        }) | (if self.tx_space > 0 {
            Events::OUT
        } else {
            0
        })
    }
}

/// What reading a datagram does. The size of the whole datagram is returned, of which as much is
/// copied as there is room for.
pub open spec fn datagram_reads(
    before: DatagramView,
    buf_before: Seq<u8>,
    flags: ReceiveFlags,
    after: DatagramView,
    buf_after: Seq<u8>,
    r: Result<usize, ReceiveError>,
) -> bool {
    if before.rx.len() == 0 {
        r == Ok::<usize, ReceiveError>(0) && after == before && buf_after == buf_before
    } else {
        let data = before.rx[0].data;
        let n = if flags.has(ReceiveFlags::DISCARD) {
            0
        } else {
            smaller(buf_before.len(), data.len()) as int
        };
        &&& r is Ok
        &&& r->Ok_0 == data.len()
        &&& after == before.rx_taken()
        &&& buf_after == data.take(n) + buf_before.skip(n)
    }
}

/// Whether an address is an IPv6 address.
pub open spec fn is_v6(addr: Option<SocketAddr>) -> bool {
    addr is Some && addr->Some_0 is V6
}

/// What queueing a datagram does.
pub open spec fn datagram_sends(
    before: DatagramView,
    data: Seq<u8>,
    addr: Option<SocketAddr>,
    after: DatagramView,
    r: Result<usize, SendError>,
) -> bool {
    if addr is None && !before.is_connected {
        r is Err && r->Err_0 == SendError::DestinationAddressRequired && after == before
    } else if before.tx.len() == before.capacity {
        r is Err && r->Err_0 == SendError::BufferFull && after == before
    } else {
        &&& r is Ok
        &&& r->Ok_0 == data.len()
        &&& after == before.tx_added(MessageView { data, addr })
    }
}

/// What the arrival of a datagram does.
pub open spec fn datagram_arrives(
    before: DatagramView,
    message: MessageView,
    after: DatagramView,
    r: Option<usize>,
) -> bool {
    if before.rx.len() == before.capacity {
        r is None && after == before
    } else {
        r == Some(message.data.len() as usize) && after == before.rx_added(message)
    }
}

/// What setting the local port does.
pub open spec fn sets_local_port(
    before: DatagramView,
    port: u16,
    after: DatagramView,
    r: Result<(), u16>,
) -> bool {
    &&& r == if before.local_port == 0 {
        Ok(())
    } else {
        Err(before.local_port)
    }
    &&& after == if r is Ok {
        DatagramView { local_port: port, ..before }
    } else {
        before
    }
}

/// Datagrams are read one at a time, in the order in which they came, and none is split or merged:
/// what does not fit in the buffer is gone with its datagram.
pub proof fn lemma_datagrams_are_read_whole(
    v: DatagramView,
    message: MessageView,
    buf: Seq<u8>,
    after: DatagramView,
    buf_after: Seq<u8>,
    r: Result<usize, ReceiveError>,
)
    requires
        datagram_reads(v.rx_added(message), buf, ReceiveFlags { bits: 0 }, after, buf_after, r),
    ensures
        ({
            let first = v.rx_added(message).rx[0];
            let n = smaller(buf.len(), first.data.len()) as int;
            &&& first == if v.rx.len() == 0 {
                message
            } else {
                v.rx[0]
            }
            &&& r == Ok::<usize, ReceiveError>(first.data.len() as usize)
            &&& buf_after.take(n) == first.data.take(n)
            &&& after.rx == v.rx.push(message).skip(1)
        }),
{
    let flags = ReceiveFlags { bits: 0 };
    assert(!flags.has(ReceiveFlags::DISCARD)) by {
        lemma_no_flags();
    }
    let first = v.rx_added(message).rx[0];
    let n = smaller(buf.len(), first.data.len()) as int;
    assert((first.data.take(n) + buf.skip(n)).take(n) =~= first.data.take(n));
}

/// Datagrams are sent in the order in which they were queued.
pub proof fn lemma_datagrams_are_fifo(v: DatagramView, message: MessageView)
    ensures
        v.tx_added(message).tx_taken().tx == v.tx.push(message).skip(1),
        v.tx.len() == 0 ==> v.tx_added(message).tx[0] == message,
        v.tx.len() > 0 ==> v.tx_added(message).tx[0] == v.tx[0],
{
}

/// A channel for datagram (UDP) socket communication.
///
/// Unlike [`StreamSocketChannel`], this channel operates on discrete messages rather than a byte
/// stream. Each datagram is queued independently and has its associated address.
pub struct DatagramSocketChannel {
    rx: MessageRing,
    tx: MessageRing,
    /// Messages available in RX
    rx_count: usize,
    /// Space available in TX
    tx_space: usize,
    local_port: u16,
    is_connected: bool,
    socket_error: Option<SocketAsyncError>,
    notified: Vec<Events>,
}

impl View for DatagramSocketChannel {
    type V = DatagramView;

    closed spec fn view(&self) -> DatagramView {
        DatagramView {
            rx: ring_messages(self.rx),
            tx: ring_messages(self.tx),
            capacity: ring_messages_limit(self.rx),
            rx_count: self.rx_count,
            tx_space: self.tx_space,
            local_port: self.local_port,
            is_connected: self.is_connected,
            error: self.socket_error,
            notified: self.notified@,
        }
    }
}

impl DatagramSocketChannel {
    /// The two queues have the same capacity, and hold no more than that.
    pub closed spec fn wf(&self) -> bool {
        &&& self@.is_bounded()
        &&& ring_messages_limit(self.tx) == ring_messages_limit(self.rx)
    }

    /// The queues of a channel in order are within their capacity.
    pub proof fn lemma_wf(&self)
        requires
            self.wf(),
        ensures
            self@.is_bounded(),
    {
    }

    /// Create a new datagram socket channel with default queue size.
    ///
    /// The channel is created with default queue size (64 messages).
    pub fn new() -> (r: Self)
        ensures
            r.wf(),
            r@ == DatagramView::fresh(DEFAULT_DATAGRAM_QUEUE_SIZE as nat),
    {
        Self::new_with_capacity(DEFAULT_DATAGRAM_QUEUE_SIZE)
    }

    /// Create a new datagram socket channel with specified queue size.
    pub fn new_with_capacity(queue_size: usize) -> (r: Self)
        requires
            0 < queue_size <= isize::MAX / 128,
        ensures
            r.wf(),
            r@ == DatagramView::fresh(queue_size as nat),
    {
        let r = DatagramSocketChannel {
            rx: MessageRing::new(queue_size),
            tx: MessageRing::new(queue_size),
            rx_count: 0,
            tx_space: queue_size,
            local_port: 0,
            is_connected: false,
            socket_error: None,
            notified: Vec::new(),
        };
        assert(r@ =~= DatagramView::fresh(queue_size as nat));
        r
    }

    /// Receive a datagram from the socket.
    ///
    /// Copies the datagram payload into `buf` and optionally returns the source address. Returns
    /// the full message size (which may exceed `buf.len()`).
    pub fn try_read(
        &mut self,
        buf: &mut [u8],
        flags: ReceiveFlags,
        source_addr: Option<&mut Option<SocketAddr>>,
    ) -> (r: Result<usize, ReceiveError>)
        requires
            old(self).wf(),
        ensures
            final(self).wf(),
            old(self)@.is_counted() ==> final(self)@.is_counted(),
            datagram_reads(old(self)@, old(buf)@, flags, final(self)@, final(buf)@, r),
            match source_addr {
                Some(p) => *final(p) == if old(self)@.rx.len() > 0 {
                    old(self)@.rx[0].addr
                } else {
                    *p
                },
                None => true,
            },
    {
        let ghost before = self@;
        let ghost buf_before = buf@;
        if let Some(msg) = self.rx.try_pop() {
            if let Some(source_addr) = source_addr {
                *source_addr = msg.addr;
            }
            let size: usize = msg.data.len();
            if !flags.contains(ReceiveFlags::DISCARD) {
                let to_copy: usize = if buf.len() < size {
                    buf.len()
                } else {
                    size
                };
                bytes::copy_into(buf, msg.data.as_slice(), to_copy);
            } else {
                assert(msg.data@.take(0) + buf_before.skip(0) =~= buf_before);
            }
            self.rx_count = self.rx_count.wrapping_sub(1);
            assert(self@ =~= before.rx_taken());
            Ok(size)
        } else {
            Ok(0)
        }
    }

    /// Send a datagram to the specified address.
    ///
    /// The datagram is queued for transmission by the network worker. Returns the number of bytes
    /// queued (always `data.len()` on success).
    pub fn send_to(&mut self, data: &[u8], addr: Option<SocketAddr>) -> (r: Result<
        usize,
        SendError,
    >)
        requires
            old(self).wf(),
        ensures
            final(self).wf(),
            old(self)@.is_counted() ==> final(self)@.is_counted(),
            datagram_sends(old(self)@, data@, addr, final(self)@, r),
    {
        let ghost before = self@;
        if addr.is_none() && !self.is_connected {
            return Err(SendError::DestinationAddressRequired);
        }
        let size: usize = data.len();
        let msg = DatagramMessage { data: bytes::to_vec(data), addr };
        match self.tx.try_push(msg) {
            Ok(()) => {
                self.tx_space = self.tx_space.wrapping_sub(1);
                assert(self@ =~= before.tx_added(MessageView { data: data@, addr }));
                Ok(size)
            },
            Err(_) => Err(SendError::BufferFull),
        }
    }

    /// Check if the socket is readable.
    pub fn is_readable(&self) -> (r: bool)
        ensures
            r == (self@.rx_count > 0),
    {
        self.rx_count > 0
    }

    /// Check if the socket is writable.
    pub fn is_writable(&self) -> (r: bool)
        ensures
            r == (self@.tx_space > 0),
    {
        self.tx_space > 0
    }

    /// Get the local port the socket is bound to.
    ///
    /// Returns 0 if the socket is not yet bound.
    pub fn local_port(&self) -> (r: u16)
        ensures
            r == self@.local_port,
    {
        self.local_port
    }

    /// Set the local port the socket is bound to.
    ///
    /// Returns `Ok(())` if the port was set successfully, or `Err(current_port)` if a port was
    /// already set.
    pub fn set_local_port(&mut self, port: u16) -> (r: Result<(), u16>)
        requires
            old(self).wf(),
            port != 0,
        ensures
            final(self).wf(),
            sets_local_port(old(self)@, port, final(self)@, r),
    {
        if self.local_port == 0 {
            self.local_port = port;
            Ok(())
        } else {
            Err(self.local_port)
        }
    }

    /// The events that hold of the channel.
    pub fn check_io_events(&self) -> (r: Events)
        ensures
            r.bits == self@.events(),
    {
        let readable: u32 = if self.rx_count > 0 {
            Events::IN
        } else {
            0
        };
        let writable: u32 = if self.tx_space > 0 {
            Events::OUT
        } else {
            0
        };
        Events { bits: readable | writable }
    }

    /// Push a received datagram to the RX queue, if the queue has space. Returns its length.
    pub fn push_rx_datagram(&mut self, data: Vec<u8>, source_addr: SocketAddr) -> (r: Option<usize>)
        requires
            old(self).wf(),
        ensures
            final(self).wf(),
            old(self)@.is_counted() ==> final(self)@.is_counted(),
            datagram_arrives(old(self)@, MessageView { data: data@, addr: Some(source_addr) }, final(self)@, r),
    {
        let ghost before = self@;
        let ghost message = MessageView { data: data@, addr: Some(source_addr) };
        let len: usize = data.len();
        match self.rx.try_push(DatagramMessage { data, addr: Some(source_addr) }) {
            Ok(()) => {
                self.rx_count = self.rx_count.wrapping_add(1);
                self.notified.push(Events { bits: Events::IN });
                assert(self@ =~= before.rx_added(message));
                Some(len)
            },
            Err(_) => None,
        }
    }

    /// Try to receive a datagram using a closure that provides the data.
    ///
    /// The closure should return `Some((data, source_addr))` if a datagram was received, or `None`
    /// if no datagram is available. It is not called when the queue is full.
    ///
    /// Returns:
    /// - `Some(len)` if a datagram was received and pushed (len is data length)
    /// - `None` if the closure returned `None` or the queue is full
    pub fn try_recv_datagram_with<F: FnOnce() -> Option<(Vec<u8>, SocketAddr)>>(
        &mut self,
        f: F,
    ) -> (r: Option<usize>)
        requires
            old(self).wf(),
            f.requires(()),
        ensures
            final(self).wf(),
            old(self)@.is_counted() ==> final(self)@.is_counted(),
            if old(self)@.rx.len() == old(self)@.capacity {
                r is None && final(self)@ == old(self)@
            } else {
                exists|got: Option<(Vec<u8>, SocketAddr)>| #[trigger]
                    f.ensures((), got) && match got {
                        None => r is None && final(self)@ == old(self)@,
                        Some((data, addr)) => r == Some(data@.len() as usize) && final(self)@
                            == old(self)@.rx_added(
                            MessageView { data: data@, addr: Some(addr) },
                        ),
                    }
            },
    {
        if self.rx.is_full() {
            return None;
        }
        let got = f();
        match got {
            None => None,
            Some((data, source_addr)) => self.push_rx_datagram(data, source_addr),
        }
    }

    /// The destination and the size of each datagram that waits to be sent, the eldest first.
    pub fn tx_heads(&self) -> (r: Vec<(Option<SocketAddr>, usize)>)
        ensures
            r@.len() == self@.tx.len(),
            forall|k: int|
                0 <= k < r@.len() ==> (#[trigger] r@[k]).0 == self@.tx[k].addr && r@[k].1
                    == self@.tx[k].data.len(),
    {
        self.tx.heads()
    }

    /// The eldest datagram that waits to be sent.
    pub fn first_tx(&self) -> (r: Option<&DatagramMessage>)
        ensures
            r is Some <==> self@.tx.len() > 0,
            r is Some ==> r->Some_0@ == self@.tx[0],
    {
        self.tx.first()
    }

    /// Remove the eldest datagram that waits to be sent, after it has been sent.
    pub fn consume_tx(&mut self)
        requires
            old(self).wf(),
            old(self)@.tx.len() > 0,
        ensures
            final(self).wf(),
            old(self)@.is_counted() ==> final(self)@.is_counted(),
            final(self)@ == old(self)@.tx_taken(),
    {
        let ghost before = self@;
        let consumed = self.tx.try_pop();
        self.tx_space = self.tx_space.wrapping_add(1);
        self.notified.push(Events { bits: Events::OUT });
        assert(self@ =~= before.tx_taken());
    }

    /// Try to send the next datagram using a closure, consuming it only on success.
    ///
    /// The closure receives the data slice and optional destination address, and should return
    /// `true` if the send succeeded (datagram will be consumed) or `false` if the send failed
    /// (datagram remains in queue for retry).
    ///
    /// Returns:
    /// - `Some(true)` if a datagram was sent and consumed
    /// - `Some(false)` if a datagram was peeked but send failed (still in queue)
    /// - `None` if the queue is empty
    pub fn try_send_datagram_with<F: FnOnce(&[u8], Option<SocketAddr>) -> bool>(
        &mut self,
        f: F,
    ) -> (r: Option<bool>)
        requires
            old(self).wf(),
            forall|data: &[u8]|
                old(self)@.tx.len() > 0 && data@ == old(self)@.tx[0].data ==> #[trigger] f.requires(
                    (data, old(self)@.tx[0].addr),
                ),
        ensures
            final(self).wf(),
            old(self)@.is_counted() ==> final(self)@.is_counted(),
            if old(self)@.tx.len() == 0 {
                r is None && final(self)@ == old(self)@
            } else {
                &&& r is Some
                &&& exists|data: &[u8]|
                    data@ == old(self)@.tx[0].data && #[trigger] f.ensures(
                        (data, old(self)@.tx[0].addr),
                        r->Some_0,
                    )
                &&& final(self)@ == if r->Some_0 {
                    old(self)@.tx_taken()
                } else {
                    old(self)@
                }
            },
    {
        let success = match self.tx.first() {
            None => {
                return None;
            },
            Some(msg) => {
                let data = msg.data.as_slice();
                let addr = msg.addr;
                assert(addr == self@.tx[0].addr && data@ == self@.tx[0].data);
                let sent = f(data, addr);
                assert(f.ensures((data, self@.tx[0].addr), sent));
                sent
            },
        };
        if success {
            self.consume_tx();
        }
        Some(success)
    }

    /// Check if the RX queue is full (cannot accept more datagrams).
    pub fn is_rx_full(&self) -> (r: bool)
        requires
            self.wf(),
        ensures
            r == (self@.rx.len() == self@.capacity),
    {
        self.rx.is_full()
    }

    /// Check if there are datagrams waiting to be sent.
    pub fn has_pending_tx(&self) -> (r: bool)
        ensures
            r == (self@.tx.len() > 0),
    {
        !self.tx.is_empty()
    }

    /// Manually set the readable state.
    pub fn set_readable(&mut self, readable: bool)
        requires
            old(self).wf(),
        ensures
            final(self).wf(),
            final(self)@ == old(self)@.set_readable(readable),
    {
        if readable {
            self.rx_count = 1;
        } else {
            self.rx_count = 0;
        }
    }

    /// Set the connected state of the datagram socket.
    pub fn set_connected(&mut self, connected: bool)
        requires
            old(self).wf(),
        ensures
            final(self).wf(),
            final(self)@ == (DatagramView { is_connected: connected, ..old(self)@ }),
    {
        self.is_connected = connected;
    }

    /// Set the async socket error.
    pub fn set_async_error(&mut self, error: SocketAsyncError)
        requires
            old(self).wf(),
        ensures
            final(self).wf(),
            final(self)@ == (DatagramView { error: Some(error), ..old(self)@ }),
    {
        self.socket_error = Some(error);
    }

    /// Read and optionally clear the async socket error.
    pub fn get_async_error(&mut self, clear: bool) -> (r: Option<SocketAsyncError>)
        requires
            old(self).wf(),
        ensures
            final(self).wf(),
            r == old(self)@.error,
            final(self)@ == if clear {
                DatagramView { error: None, ..old(self)@ }
            } else {
                old(self)@
            },
    {
        let error = self.socket_error;
        if clear {
            self.socket_error = None;
        }
        error
    }

    /// Take the notifications that observers are to get.
    pub fn take_notifications(&mut self) -> (r: Vec<Events>)
        requires
            old(self).wf(),
        ensures
            final(self).wf(),
            r@ == old(self)@.notified,
            final(self)@ == (DatagramView { notified: Seq::empty(), ..old(self)@ }),
    {
        let ghost before = self@;
        let mut taken: Vec<Events> = Vec::new();
        taken.append(&mut self.notified);
        assert(taken@ =~= before.notified);
        assert(self@ =~= (DatagramView { notified: Seq::empty(), ..before }));
        taken
    }
}

impl Default for DatagramSocketChannel {
    fn default() -> (r: Self)
        ensures
            r.wf(),
            r@ == DatagramView::fresh(DEFAULT_DATAGRAM_QUEUE_SIZE as nat),
    {
        Self::new()
    }
}

/// A proxy for network socket operations that decouples user I/O from network processing.
pub enum NetworkProxy {
    /// Stream (TCP) socket proxy
    Stream(StreamSocketChannel),
    /// Datagram (UDP) socket proxy
    Datagram(DatagramSocketChannel),
    /// Raw socket proxy (not yet implemented)
    Raw,
}

/// The value of a [`NetworkProxy`].
pub enum ProxyView {
    Stream(StreamView),
    Datagram(DatagramView),
    Raw,
}

impl ProxyView {
    /// The proxy after its state has been set. A datagram socket only knows whether it is
    /// connected.
    pub open spec fn in_state(self, state: SocketState) -> ProxyView {
        match self {
            ProxyView::Stream(v) => ProxyView::Stream(v.in_state(state)),
            ProxyView::Datagram(v) => ProxyView::Datagram(
                DatagramView { is_connected: state == SocketState::Connected, ..v },
            ),
            ProxyView::Raw => ProxyView::Raw,
        }
    }

    /// The proxy with an error to report.
    pub open spec fn with_error(self, error: Option<SocketAsyncError>) -> ProxyView {
        match self {
            ProxyView::Stream(v) => ProxyView::Stream(StreamView { error, ..v }),
            ProxyView::Datagram(v) => ProxyView::Datagram(DatagramView { error, ..v }),
            ProxyView::Raw => ProxyView::Raw,
        }
    }

    /// The proxy after its readable state has been set by hand.
    pub open spec fn set_readable(self, readable: bool) -> ProxyView {
        match self {
            ProxyView::Stream(v) => ProxyView::Stream(v.set_readable(readable)),
            ProxyView::Datagram(v) => ProxyView::Datagram(v.set_readable(readable)),
            ProxyView::Raw => ProxyView::Raw,
        }
    }

    /// Whether data waits to be sent.
    pub open spec fn has_pending_tx(self) -> bool {
        match self {
            ProxyView::Stream(v) => v.tx.len() > 0,
            ProxyView::Datagram(v) => v.tx.len() > 0,
            ProxyView::Raw => false,
        }
    }

    /// The error to report.
    pub open spec fn error(self) -> Option<SocketAsyncError> {
        match self {
            ProxyView::Stream(v) => v.error,
            ProxyView::Datagram(v) => v.error,
            ProxyView::Raw => None,
        }
    }

    /// The events that hold of the channel.
    pub open spec fn events(self) -> u32 {
        match self {
            ProxyView::Stream(v) => v.events(),
            ProxyView::Datagram(v) => v.events(),
            ProxyView::Raw => 0,
        }
    }
}

/// What reading from a channel does.
pub open spec fn proxy_reads(
    before: ProxyView,
    buf_before: Seq<u8>,
    flags: ReceiveFlags,
    after: ProxyView,
    buf_after: Seq<u8>,
    r: Result<usize, ReceiveError>,
) -> bool {
    match (before, after) {
        (ProxyView::Stream(b), ProxyView::Stream(a)) => stream_reads(
            b,
            buf_before,
            flags,
            a,
            buf_after,
            r,
        ),
        (ProxyView::Datagram(b), ProxyView::Datagram(a)) => datagram_reads(
            b,
            buf_before,
            flags,
            a,
            buf_after,
            r,
        ),
        _ => false,
    }
}

/// What writing to a channel does.
pub open spec fn proxy_writes(
    before: ProxyView,
    data: Seq<u8>,
    destination: Option<SocketAddr>,
    after: ProxyView,
    r: Result<usize, SendError>,
) -> bool {
    if destination is Some && (destination->Some_0.port_spec() == 0
        || destination->Some_0.is_unspecified_spec()) {
        r is Err && r->Err_0 == SendError::Unaddressable && after == before
    } else {
        match (before, after) {
            (ProxyView::Stream(b), ProxyView::Stream(a)) => stream_writes(b, data, a, r),
            (ProxyView::Datagram(b), ProxyView::Datagram(a)) => datagram_sends(
                b,
                data,
                destination,
                a,
                r,
            ),
            _ => false,
        }
    }
}

impl View for NetworkProxy {
    type V = ProxyView;

    open spec fn view(&self) -> ProxyView {
        match self {
            NetworkProxy::Stream(c) => ProxyView::Stream(c@),
            NetworkProxy::Datagram(c) => ProxyView::Datagram(c@),
            NetworkProxy::Raw => ProxyView::Raw,
        }
    }
}

impl NetworkProxy {
    /// The queues are within their capacities.
    pub open spec fn wf(&self) -> bool {
        match self {
            NetworkProxy::Stream(c) => c@.is_bounded(),
            NetworkProxy::Datagram(c) => c.wf(),
            NetworkProxy::Raw => true,
        }
    }

    /// Set the socket state.
    ///
    /// For stream sockets, this sets the connection state.
    /// For datagram sockets, setting state to `Connected` marks the socket as connected.
    pub fn set_state(&mut self, state: SocketState)
        requires
            old(self).wf(),
        ensures
            final(self).wf(),
            final(self)@ == old(self)@.in_state(state),
    {
        match self {
            NetworkProxy::Stream(channel) => channel.set_state(state),
            NetworkProxy::Datagram(channel) => channel.set_connected(
                state == SocketState::Connected,
            ),
            NetworkProxy::Raw => {},
        }
    }

    /// Set the async socket error.
    pub fn set_async_error(&mut self, error: SocketAsyncError)
        requires
            old(self).wf(),
        ensures
            final(self).wf(),
            final(self)@ == old(self)@.with_error(Some(error)),
    {
        match self {
            NetworkProxy::Stream(channel) => channel.set_async_error(error),
            NetworkProxy::Datagram(channel) => channel.set_async_error(error),
            NetworkProxy::Raw => {},
        }
    }

    /// Read and optionally clear the async socket error.
    pub fn get_async_error(&mut self, clear: bool) -> (r: Option<SocketAsyncError>)
        requires
            old(self).wf(),
        ensures
            final(self).wf(),
            r == old(self)@.error(),
            final(self)@ == if clear {
                old(self)@.with_error(None)
            } else {
                old(self)@
            },
    {
        match self {
            NetworkProxy::Stream(channel) => channel.get_async_error(clear),
            NetworkProxy::Datagram(channel) => channel.get_async_error(clear),
            NetworkProxy::Raw => None,
        }
    }

    /// Attempt to read data from the socket into the provided buffer.
    ///
    /// Returns the number of bytes read, or an error if the socket is in an invalid state. Raw
    /// sockets cannot be read.
    pub fn try_read(
        &mut self,
        buf: &mut [u8],
        flags: ReceiveFlags,
        source_addr: Option<&mut Option<SocketAddr>>,
    ) -> (r: Result<usize, ReceiveError>)
        requires
            old(self).wf(),
            !(old(self)@ is Raw),
        ensures
            final(self).wf(),
            proxy_reads(old(self)@, old(buf)@, flags, final(self)@, final(buf)@, r),
            match source_addr {
                Some(p) => *final(p) == match old(self)@ {
                    ProxyView::Stream(_) => if r is Ok {
                        None
                    } else {
                        *p
                    },
                    ProxyView::Datagram(v) => if v.rx.len() > 0 {
                        v.rx[0].addr
                    } else {
                        *p
                    },
                    ProxyView::Raw => *p,
                },
                None => true,
            },
    {
        match self {
            NetworkProxy::Stream(channel) => channel.try_read(buf, flags, source_addr),
            NetworkProxy::Datagram(channel) => channel.try_read(buf, flags, source_addr),
            NetworkProxy::Raw => Ok(0),
        }
    }

    /// Attempt to write data to the socket from the provided buffer.
    ///
    /// Returns the number of bytes written, or an error if the buffer is full or the socket is in
    /// an invalid state. No flag is supported, and raw sockets cannot be written.
    pub fn try_write(
        &mut self,
        buf: &[u8],
        flags: SendFlags,
        destination: Option<SocketAddr>,
    ) -> (r: Result<usize, SendError>)
        requires
            old(self).wf(),
            !(old(self)@ is Raw),
            flags.bits == 0,
        ensures
            final(self).wf(),
            proxy_writes(old(self)@, buf@, destination, final(self)@, r),
    {
        if let Some(addr) = destination {
            if addr.port() == 0 || addr.is_unspecified() {
                return Err(SendError::Unaddressable);
            }
        }
        match self {
            NetworkProxy::Stream(channel) => channel.try_write(buf),
            NetworkProxy::Datagram(channel) => channel.send_to(buf, destination),
            NetworkProxy::Raw => Ok(0),
        }
    }

    /// The events that hold of the socket. Raw sockets cannot be polled.
    pub fn check_io_events(&self) -> (r: Events)
        requires
            !(self@ is Raw),
        ensures
            r.bits == self@.events(),
    {
        match self {
            NetworkProxy::Stream(channel) => channel.check_io_events(),
            NetworkProxy::Datagram(channel) => channel.check_io_events(),
            NetworkProxy::Raw => Events::empty(),
        }
    }

    /// Manually set the readable state.
    ///
    /// This is used for server sockets to indicate that a connection is ready to accept.
    pub fn set_readable(&mut self, readable: bool)
        requires
            old(self).wf(),
        ensures
            final(self).wf(),
            final(self)@ == old(self)@.set_readable(readable),
    {
        match self {
            NetworkProxy::Stream(channel) => channel.set_readable(readable),
            NetworkProxy::Datagram(channel) => channel.set_readable(readable),
            NetworkProxy::Raw => {},
        }
    }

    /// Check if there is data pending in the TX buffer to be sent.
    pub fn has_pending_tx(&self) -> (r: bool)
        ensures
            r == self@.has_pending_tx(),
    {
        match self {
            NetworkProxy::Stream(channel) => channel.has_pending_tx(),
            NetworkProxy::Datagram(channel) => channel.has_pending_tx(),
            NetworkProxy::Raw => false,
        }
    }
}

} // verus!
