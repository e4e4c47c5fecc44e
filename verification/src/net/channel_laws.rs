//! What holds of the channels between sockets and the network.
use crate::bits::lemma_event_bits;
use crate::net::errors::{ReceiveError, SendError, SocketAsyncError};
use crate::net::ring::MessageView;
use crate::net::socket_channel::{
    datagram_arrives, datagram_reads, datagram_sends, proxy_reads, proxy_writes, sets_local_port,
    stream_arrives, stream_leaves, stream_reads, stream_writes, DatagramView, ProxyView,
    SocketState, StreamView,
};
use crate::net::{ReceiveFlags, SocketAddr};
use vstd::prelude::*;

verus! {

/// Reading from a stream gives the bytes that were received first, in order: byte `i` of the buffer
/// is byte `i` of what was received. As much is read as fits, what was not read stays to be read,
/// and what was not written in the buffer stays there.
pub proof fn lemma_stream_is_read_in_order(
    before: StreamView,
    buf: Seq<u8>,
    flags: ReceiveFlags,
    after: StreamView,
    buf_after: Seq<u8>,
    r: Result<usize, ReceiveError>,
)
    requires
        before.is_bounded(),
        stream_reads(before, buf, flags, after, buf_after, r),
        before.state is Connected,
        !before.read_shutdown,
        flags.bits & 0x8000 == 0,
        flags.bits & 0x20 == 0,
    ensures
        r is Ok,
        ({
            let n = r->Ok_0;
            &&& n <= buf.len()
            &&& n <= before.rx.len()
            &&& n == buf.len() || n == before.rx.len()
            &&& buf_after.len() == buf.len()
            &&& forall|i: int| 0 <= i < n ==> #[trigger] buf_after[i] == before.rx[i]
            &&& forall|i: int| n <= i < buf.len() ==> #[trigger] buf_after[i] == buf[i]
            &&& after.rx.len() == before.rx.len() - n
            &&& forall|i: int| 0 <= i < after.rx.len() ==> #[trigger] after.rx[i] == before.rx[n + i]
            &&& after.tx == before.tx
            &&& after.state == before.state
            &&& after.error == before.error
        }),
{
}

/// All that was received is dropped by reading to discard (0x8000), and the buffer stays; with the
/// flag to truncate (0x20) as much is read as fits and the rest is dropped. Either tells how much
/// there was.
pub proof fn lemma_stream_is_dropped(
    before: StreamView,
    buf: Seq<u8>,
    flags: ReceiveFlags,
    after: StreamView,
    buf_after: Seq<u8>,
    r: Result<usize, ReceiveError>,
)
    requires
        before.is_bounded(),
        stream_reads(before, buf, flags, after, buf_after, r),
        before.state is Connected,
        !before.read_shutdown,
        flags.bits & 0x8000 == 0x8000 || flags.bits & 0x20 == 0x20,
    ensures
        r is Ok,
        r->Ok_0 == before.rx.len(),
        after.rx.len() == 0,
        flags.bits & 0x8000 == 0x8000 ==> buf_after == buf,
        flags.bits & 0x8000 != 0x8000 ==> forall|i: int|
            0 <= i < buf.len() && i < before.rx.len() ==> #[trigger] buf_after[i] == before.rx[i],
{
}

/// A stream that is not connected, or whose reading side is shut down, is not read from; nor is one
/// written to that is not connected or whose writing side is shut down. Nothing changes.
pub proof fn lemma_unconnected_streams(
    before: StreamView,
    buf: Seq<u8>,
    flags: ReceiveFlags,
    read: StreamView,
    buf_after: Seq<u8>,
    r: Result<usize, ReceiveError>,
    data: Seq<u8>,
    written: StreamView,
    w: Result<usize, SendError>,
)
    requires
        stream_reads(before, buf, flags, read, buf_after, r),
        stream_writes(before, data, written, w),
    ensures
        !(before.state is Connected) || before.read_shutdown ==> {
            &&& r == Err::<usize, ReceiveError>(ReceiveError::SocketInInvalidState)
            &&& read == before
            &&& buf_after == buf
        },
        before.state is Connected && !before.read_shutdown ==> r is Ok,
        !(before.state is Connected) || before.write_shutdown ==> {
            &&& w == Err::<usize, SendError>(SendError::SocketInInvalidState)
            &&& written == before
        },
{
}

/// What is written to a stream is added, in order, after what waits to be sent, as far as there is
/// room. Only where nothing could be added, the buffer is told to be full.
pub proof fn lemma_stream_is_written_in_order(
    before: StreamView,
    data: Seq<u8>,
    after: StreamView,
    w: Result<usize, SendError>,
)
    requires
        before.is_bounded(),
        stream_writes(before, data, after, w),
        before.state is Connected,
        !before.write_shutdown,
    ensures
        w is Err <==> data.len() == 0 || before.tx.len() == before.tx_capacity,
        w is Err ==> w->Err_0 == SendError::BufferFull && after == before,
        w is Ok ==> {
            let n = w->Ok_0;
            &&& 0 < n <= data.len()
            &&& n == data.len() || after.tx.len() == before.tx_capacity
            &&& after.tx.len() == before.tx.len() + n
            &&& after.tx.len() <= before.tx_capacity
            &&& forall|i: int| 0 <= i < before.tx.len() ==> #[trigger] after.tx[i] == before.tx[i]
            &&& forall|i: int| 0 <= i < n ==> #[trigger] after.tx[before.tx.len() + i] == data[i]
            &&& after.rx == before.rx
            &&& after.notified == before.notified
        },
{
}

/// Received bytes are added in order after those that wait to be read, and observers are told that
/// there is something to read (0x1); bytes are sent from the eldest on, and observers are told that
/// there is room again (0x4).
pub proof fn lemma_stream_is_moved_in_order(before: StreamView, data: Seq<u8>, n: int)
    requires
        data.len() > 0,
        0 < n <= before.tx.len(),
    ensures
        ({
            let received = before.rx_added(data);
            &&& received.rx.len() == before.rx.len() + data.len()
            &&& forall|i: int| 0 <= i < before.rx.len() ==> #[trigger] received.rx[i] == before.rx[i]
            &&& forall|i: int|
                0 <= i < data.len() ==> #[trigger] received.rx[before.rx.len() + i] == data[i]
            &&& received.tx == before.tx
            &&& received.notified.len() == before.notified.len() + 1
            &&& received.notified.last().bits == 0x1
        }),
        ({
            let sent = before.tx_taken(n);
            &&& sent.tx.len() == before.tx.len() - n
            &&& forall|i: int| 0 <= i < sent.tx.len() ==> #[trigger] sent.tx[i] == before.tx[n + i]
            &&& sent.rx == before.rx
            &&& sent.notified.len() == before.notified.len() + 1
            &&& sent.notified.last().bits == 0x4
        }),
{
}

/// Bytes that arrive are read after those that arrived before, as many of the first as there is room
/// for; bytes are taken out to be sent from the eldest on, as many as the buffer has room for.
pub proof fn lemma_stream_is_exchanged(
    before: StreamView,
    data: Seq<u8>,
    filled: StreamView,
    n: usize,
    buf: Seq<u8>,
    drained: StreamView,
    buf_after: Seq<u8>,
    m: usize,
)
    requires
        before.is_bounded(),
        stream_arrives(before, data, filled, n),
        stream_leaves(before, buf, drained, buf_after, m),
    ensures
        n <= data.len(),
        n == data.len() || filled.rx.len() == before.rx_capacity,
        filled.rx.len() == before.rx.len() + n,
        filled.rx.len() <= before.rx_capacity,
        forall|i: int| 0 <= i < before.rx.len() ==> #[trigger] filled.rx[i] == before.rx[i],
        forall|i: int| 0 <= i < n ==> #[trigger] filled.rx[before.rx.len() + i] == data[i],
        filled.tx == before.tx,
        m == buf.len() || m == before.tx.len(),
        m <= buf.len(),
        m <= before.tx.len(),
        buf_after.len() == buf.len(),
        forall|i: int| 0 <= i < m ==> #[trigger] buf_after[i] == before.tx[i],
        forall|i: int| m <= i < buf.len() ==> #[trigger] buf_after[i] == buf[i],
        drained.tx.len() == before.tx.len() - m,
        forall|i: int| 0 <= i < drained.tx.len() ==> #[trigger] drained.tx[i] == before.tx[m + i],
        drained.rx == before.rx,
{
}

/// A change of state is told to observers: writable when connected (0x4), hung up when closed
/// (0x10), failed on an error (0x8). Setting the state that it has tells nothing.
pub proof fn lemma_state_is_notified(before: StreamView, state: SocketState)
    ensures
        ({
            let after = before.in_state(state);
            &&& after.state == state
            &&& after.rx == before.rx
            &&& after.tx == before.tx
            &&& state == before.state ==> after.notified == before.notified
            &&& state != before.state && (state is Connected || state is Closed || state is Error)
                ==> {
                &&& after.notified.len() == before.notified.len() + 1
                &&& after.notified.last().bits == match state {
                    SocketState::Connected => 0x4u32,
                    SocketState::Closed => 0x10u32,
                    _ => 0x8u32,
                }
            }
        }),
{
}

/// A stream is told to be readable (0x1) exactly if something waits to be read, writable (0x4)
/// exactly if it is connected and has room, or is closed or failed, hung up (0x10) exactly if it is
/// closed, and failed (0x8) exactly if it is.
pub proof fn lemma_stream_events(v: StreamView)
    requires
        v.is_bounded(),
        v.is_counted(),
    ensures
        v.events() & 0x1 != 0 <==> v.rx.len() > 0,
        v.events() & 0x4 != 0 <==> v.state is Closed || v.state is Error || (v.state is Connected
            && v.tx.len() < v.tx_capacity),
        v.events() & 0x10 != 0 <==> v.state is Closed,
        v.events() & 0x8 != 0 <==> v.state is Error,
{
    let readable: u32 = if v.rx_available > 0 {
        1
    } else {
        0
    };
    lemma_event_bits(readable, 0);
    lemma_event_bits(readable, 4);
}

/// A new channel is closed and empty, with room for as much as was asked for.
pub proof fn lemma_fresh_channels(rx_capacity: nat, tx_capacity: nat, capacity: nat)
    requires
        tx_capacity <= usize::MAX,
        capacity <= usize::MAX,
    ensures
        ({
            let v = StreamView::fresh(rx_capacity, tx_capacity);
            &&& v.state is Closed
            &&& v.rx.len() == 0
            &&& v.tx.len() == 0
            &&& v.rx_capacity == rx_capacity
            &&& v.tx_capacity == tx_capacity
            &&& !v.read_shutdown
            &&& !v.write_shutdown
            &&& v.error is None
            &&& v.notified.len() == 0
        }),
        ({
            let v = DatagramView::fresh(capacity);
            &&& v.rx.len() == 0
            &&& v.tx.len() == 0
            &&& v.capacity == capacity
            &&& v.local_port == 0
            &&& !v.is_connected
            &&& v.error is None
            &&& v.notified.len() == 0
        }),
{
}

/// Reading takes the eldest datagram, whole: byte `i` of the buffer is its byte `i`, as far as there
/// is room, and its whole size is told. The others stay, in order. To discard (0x8000) leaves the
/// buffer as it is. Where there is no datagram nothing is read.
pub proof fn lemma_datagram_is_read(
    before: DatagramView,
    buf: Seq<u8>,
    flags: ReceiveFlags,
    after: DatagramView,
    buf_after: Seq<u8>,
    r: Result<usize, ReceiveError>,
)
    requires
        datagram_reads(before, buf, flags, after, buf_after, r),
    ensures
        r is Ok,
        before.rx.len() == 0 ==> r->Ok_0 == 0 && after == before && buf_after == buf,
        before.rx.len() > 0 ==> {
            let data = before.rx[0].data;
            &&& r->Ok_0 == data.len()
            &&& buf_after.len() == buf.len()
            &&& flags.bits & 0x8000 == 0 ==> forall|i: int|
                0 <= i < buf.len() && i < data.len() ==> #[trigger] buf_after[i] == data[i]
            &&& flags.bits & 0x8000 == 0 ==> forall|i: int|
                data.len() <= i < buf.len() ==> #[trigger] buf_after[i] == buf[i]
            &&& flags.bits & 0x8000 == 0x8000 ==> buf_after =~= buf
            &&& after.rx.len() == before.rx.len() - 1
            &&& forall|i: int| 0 <= i < after.rx.len() ==> #[trigger] after.rx[i] == before.rx[i + 1]
            &&& after.tx == before.tx
        },
{
}

/// A datagram that is sent is queued after the others, with its bytes and its destination. It needs
/// a destination, unless there is a default one, and room.
pub proof fn lemma_datagram_is_queued(
    before: DatagramView,
    data: Seq<u8>,
    addr: Option<SocketAddr>,
    after: DatagramView,
    r: Result<usize, SendError>,
)
    requires
        before.tx.len() <= before.capacity,
        datagram_sends(before, data, addr, after, r),
    ensures
        r is Ok <==> (addr is Some || before.is_connected) && before.tx.len() < before.capacity,
        addr is None && !before.is_connected ==> r == Err::<usize, SendError>(
            SendError::DestinationAddressRequired,
        ),
        (addr is Some || before.is_connected) && before.tx.len() == before.capacity ==> r == Err::<
            usize,
            SendError,
        >(SendError::BufferFull),
        r is Err ==> after == before,
        r is Ok ==> {
            &&& r->Ok_0 == data.len()
            &&& after.tx.len() == before.tx.len() + 1
            &&& forall|i: int| 0 <= i < before.tx.len() ==> #[trigger] after.tx[i] == before.tx[i]
            &&& after.tx.last().data == data
            &&& after.tx.last().addr == addr
            &&& after.rx == before.rx
        },
{
}

/// A datagram that arrives is read after the others, with its bytes and where it came from, and
/// observers are told that there is something to read (0x1). It is dropped only where there is no
/// room.
pub proof fn lemma_datagram_arrives(
    before: DatagramView,
    message: MessageView,
    after: DatagramView,
    r: Option<usize>,
)
    requires
        before.rx.len() <= before.capacity,
        message.data.len() <= usize::MAX,
        datagram_arrives(before, message, after, r),
    ensures
        r is Some <==> before.rx.len() < before.capacity,
        r is None ==> after == before,
        r is Some ==> {
            &&& r->Some_0 == message.data.len()
            &&& after.rx.len() == before.rx.len() + 1
            &&& after.rx.last() == message
            &&& forall|i: int| 0 <= i < before.rx.len() ==> #[trigger] after.rx[i] == before.rx[i]
            &&& after.tx == before.tx
            &&& after.notified.len() == before.notified.len() + 1
            &&& after.notified.last().bits == 0x1
        },
{
}

/// Datagrams leave the queue from the eldest on, and observers are told that there is room (0x4).
pub proof fn lemma_datagram_leaves(before: DatagramView)
    requires
        before.tx.len() > 0,
    ensures
        ({
            let after = before.tx_taken();
            &&& after.tx.len() == before.tx.len() - 1
            &&& forall|i: int| 0 <= i < after.tx.len() ==> #[trigger] after.tx[i] == before.tx[i + 1]
            &&& after.rx == before.rx
            &&& after.notified.len() == before.notified.len() + 1
            &&& after.notified.last().bits == 0x4
        }),
{
}

/// The local port is set once, and then kept.
pub proof fn lemma_local_port_is_kept(
    before: DatagramView,
    port: u16,
    after: DatagramView,
    r: Result<(), u16>,
    other: u16,
    last: DatagramView,
    q: Result<(), u16>,
)
    requires
        port != 0,
        sets_local_port(before, port, after, r),
        sets_local_port(after, other, last, q),
    ensures
        r is Ok <==> before.local_port == 0,
        r is Ok ==> after.local_port == port,
        r is Err ==> r->Err_0 == before.local_port && after == before,
        q is Err,
        q->Err_0 == after.local_port,
        last == after,
{
}

/// A datagram channel is told to be readable (0x1) exactly if a datagram waits to be read, and
/// writable (0x4) exactly if there is room for one.
pub proof fn lemma_datagram_events(v: DatagramView)
    requires
        v.is_bounded(),
        v.is_counted(),
    ensures
        v.events() & 0x1 != 0 <==> v.rx.len() > 0,
        v.events() & 0x4 != 0 <==> v.tx.len() < v.capacity,
{
    let readable: u32 = if v.rx_count > 0 {
        1
    } else {
        0
    };
    lemma_event_bits(readable, 0);
    lemma_event_bits(readable, 4);
}

/// Nothing is written to a destination that has no port or no address. Otherwise what is written to
/// a datagram channel goes to the destination that was given.
pub proof fn lemma_destinations_are_checked(
    before: ProxyView,
    data: Seq<u8>,
    destination: Option<SocketAddr>,
    after: ProxyView,
    r: Result<usize, SendError>,
)
    requires
        proxy_writes(before, data, destination, after, r),
    ensures
        destination is Some && (destination->Some_0.port_spec() == 0
            || destination->Some_0.is_unspecified_spec()) ==> r == Err::<usize, SendError>(
            SendError::Unaddressable,
        ) && after == before,
        r is Ok ==> match (before, after) {
            (ProxyView::Datagram(b), ProxyView::Datagram(a)) => a.tx.len() == b.tx.len() + 1
                && a.tx.last().addr == destination && a.tx.last().data == data,
            (ProxyView::Stream(b), ProxyView::Stream(a)) => a.tx.len() == b.tx.len() + r->Ok_0,
            _ => false,
        },
{
}

/// Reading from a channel is reading from what it is: a stream or datagrams.
pub proof fn lemma_channels_are_read(
    before: ProxyView,
    buf: Seq<u8>,
    flags: ReceiveFlags,
    after: ProxyView,
    buf_after: Seq<u8>,
    r: Result<usize, ReceiveError>,
)
    requires
        proxy_reads(before, buf, flags, after, buf_after, r),
    ensures
        before is Stream <==> after is Stream,
        before is Datagram <==> after is Datagram,
        before is Stream ==> stream_reads(
            before->Stream_0,
            buf,
            flags,
            after->Stream_0,
            buf_after,
            r,
        ),
        before is Datagram ==> datagram_reads(
            before->Datagram_0,
            buf,
            flags,
            after->Datagram_0,
            buf_after,
            r,
        ),
{
}

/// Setting the state of a channel sets that of a stream; datagrams have a default destination
/// exactly while connected. An error that is set is the one that is told, and nothing else changes.
pub proof fn lemma_channel_state(v: ProxyView, state: SocketState, error: SocketAsyncError)
    ensures
        v is Stream ==> v.in_state(state)->Stream_0.state == state,
        v is Datagram ==> v.in_state(state)->Datagram_0.is_connected == (state is Connected),
        v is Stream || v is Datagram ==> v.with_error(Some(error)).error() == Some(error),
        v.with_error(None).error() is None,
        v is Stream ==> v.has_pending_tx() == (v->Stream_0.tx.len() > 0),
        v is Datagram ==> v.has_pending_tx() == (v->Datagram_0.tx.len() > 0),
        v is Stream ==> v.with_error(Some(error))->Stream_0.rx == v->Stream_0.rx,
        v is Stream ==> v.with_error(Some(error))->Stream_0.tx == v->Stream_0.tx,
{
}

} // verus!
