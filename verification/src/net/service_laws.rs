//! What holds of the options of sockets, and of what is done for them in the background.
use crate::net::errors::{
    CloseError, GetTcpOptionError, RemoteAddrError, SetTcpOptionError, SocketAsyncError,
};
use crate::net::network::{
    advised, close_if_done, close_queued, drained_stream, drains_datagrams, finishes_close,
    fresh_network, has_pending_data, informed, local_addr, may_close, received_after, remote_addr,
    sent_after, sets_tcp_option, tcp_option, without_dead_sockets, CloseOutcome, NetState,
    TcpSpecificView,
};
use crate::net::ring::MessageView;
use crate::net::socket_channel::{DatagramView, NetworkProxy, ProxyView, StreamView};
use crate::net::sockets::{Packet, SocketView, TcpView, UdpView};
use crate::net::{
    CloseBehavior, CongestionControl, SocketAddr, SocketAddrV4, TcpOptionData, TcpOptionName,
};
use smoltcp::iface::SocketHandle;
use vstd::prelude::*;

verus! {

/// An option that has been set is the one that is told, and no other option changes, nor does any
/// other socket.
pub proof fn lemma_options_are_kept(
    st: NetState,
    i: int,
    nodelay: bool,
    keep_alive: Option<u64>,
    first: NetState,
    f: Result<(), SetTcpOptionError>,
    second: NetState,
    s: Result<(), SetTcpOptionError>,
    h: SocketHandle,
)
    requires
        st.is_tcp_fd(i),
        sets_tcp_option(st, i, TcpOptionData::NODELAY(nodelay), first, f),
        sets_tcp_option(first, i, TcpOptionData::KEEPALIVE(keep_alive), second, s),
        h != st.entry(i).handle,
    ensures
        f is Ok,
        s is Ok,
        tcp_option(first, i, TcpOptionName::NODELAY) == Ok::<TcpOptionData, GetTcpOptionError>(
            TcpOptionData::NODELAY(nodelay),
        ),
        tcp_option(first, i, TcpOptionName::KEEPALIVE) == tcp_option(
            st,
            i,
            TcpOptionName::KEEPALIVE,
        ),
        tcp_option(second, i, TcpOptionName::NODELAY) == Ok::<TcpOptionData, GetTcpOptionError>(
            TcpOptionData::NODELAY(nodelay),
        ),
        tcp_option(second, i, TcpOptionName::KEEPALIVE) == Ok::<TcpOptionData, GetTcpOptionError>(
            TcpOptionData::KEEPALIVE(keep_alive),
        ),
        tcp_option(second, i, TcpOptionName::CONGESTION) == Ok::<TcpOptionData, GetTcpOptionError>(
            TcpOptionData::CONGESTION(CongestionControl::NoControl),
        ),
        st.sockets.contains_key(h) ==> second.sockets.contains_key(h) && second.sockets[h]
            == st.sockets[h],
        second.entries == st.entries,
        second.ports == st.ports,
        second.tcp_socket(i).state == st.tcp_socket(i).state,
        second.tcp_socket(i).tx == st.tcp_socket(i).tx,
        second.tcp_socket(i).rx == st.tcp_socket(i).rx,
{
}

/// Only TCP sockets have TCP options.
pub proof fn lemma_options_are_of_tcp(
    st: NetState,
    i: int,
    name: TcpOptionName,
    data: TcpOptionData,
    after: NetState,
    r: Result<(), SetTcpOptionError>,
)
    requires
        sets_tcp_option(st, i, data, after, r),
        !st.is_tcp_fd(i),
    ensures
        after == st,
        r is Err,
        tcp_option(st, i, name) is Err,
        !st.is_live(i) ==> r->Err_0 == SetTcpOptionError::InvalidFd && tcp_option(st, i, name)->Err_0
            == GetTcpOptionError::InvalidFd,
        st.is_live(i) ==> r->Err_0 == SetTcpOptionError::NotTcpSocket && tcp_option(
            st,
            i,
            name,
        )->Err_0 == GetTcpOptionError::NotTcpSocket,
{
}

/// A connected TCP socket tells both ends of its connection, and one that is not tells no remote
/// address and the address 0.0.0.0:0 for its own. A UDP socket tells where it is bound and where it
/// sends by default.
pub proof fn lemma_addresses_are_told(st: NetState, i: int)
    requires
        st.is_live(i),
    ensures
        st.is_tcp_fd(i) && st.tcp_socket(i).ends is Some ==> {
            &&& local_addr(st, i) == SocketAddr::V4(st.tcp_socket(i).ends->Some_0.0)
            &&& remote_addr(st, i) == Ok::<SocketAddr, RemoteAddrError>(
                SocketAddr::V4(st.tcp_socket(i).ends->Some_0.1),
            )
        },
        st.is_tcp_fd(i) && st.tcp_socket(i).ends is None ==> {
            &&& local_addr(st, i) == SocketAddr::V4(SocketAddrV4 { ip: 0, port: 0 })
            &&& remote_addr(st, i) == Err::<SocketAddr, RemoteAddrError>(
                RemoteAddrError::NotConnected,
            )
        },
        st.is_udp_fd(i) ==> {
            let end = st.udp_socket(i).endpoint;
            &&& local_addr(st, i) is V4
            &&& local_addr(st, i)->V4_0.port == end.port
            &&& end.addr is Some ==> local_addr(st, i)->V4_0.ip == end.addr->Some_0
            &&& end.addr is None ==> local_addr(st, i)->V4_0.ip == 0
            &&& remote_addr(st, i) is Ok <==> st.entry(i).specific->Udp_0 is Some
            &&& remote_addr(st, i) is Ok ==> remote_addr(st, i)->Ok_0 == SocketAddr::V4(
                st.entry(i).specific->Udp_0->Some_0,
            )
        },
{
}

/// A new network has the address 10.0.0.2 in a network with a prefix of 24 bits, goes through the
/// gateway 10.0.0.1, and has no sockets and no ports in use.
pub proof fn lemma_new_network(i: int, h: SocketHandle, port: u16)
    ensures
        ({
            let st = fresh_network();
            &&& !st.is_live(i)
            &&& !st.sockets.contains_key(h)
            &&& !st.ports.contains_key(port)
            &&& st.queued.len() == 0
            &&& st.closing.len() == 0
            &&& st.addrs.len() == 1
            &&& st.addrs[0].0 == 0x0a00_0002
            &&& st.addrs[0].1 == 24
            &&& st.gateways.len() == 1
            &&& st.gateways[0] == 0x0a00_0001
        }),
{
}

/// A proxy that has been set is the one that is there, and setting it changes nothing else.
pub proof fn lemma_proxies_are_kept(st: NetState, i: int, j: int, proxy: Option<ProxyView>)
    requires
        st.is_live(i),
        st.is_live(j),
        i != j,
    ensures
        st.with_proxy(i, proxy).is_live(i),
        st.with_proxy(i, proxy).entry(i).proxy == proxy,
        st.with_proxy(i, proxy).entry(i).handle == st.entry(i).handle,
        st.with_proxy(i, proxy).entry(i).specific == st.entry(i).specific,
        st.with_proxy(i, proxy).entry(j) == st.entry(j),
        st.with_proxy(i, proxy).sockets == st.sockets,
        st.with_proxy(i, proxy).ports == st.ports,
{
}

/// Data is pending exactly if some waits in the proxy, or in a socket that can send it: a TCP socket
/// that is established or waits to be closed, a UDP socket that is bound.
pub proof fn lemma_pending_data(st: NetState, i: int)
    requires
        st.is_live(i),
    ensures
        st.is_tcp_fd(i) && st.entry(i).proxy is None ==> (has_pending_data(st, i)
            <==> st.tcp_socket(i).tx.len() > 0 && (st.tcp_socket(i).state is Established
            || st.tcp_socket(i).state is CloseWait)),
        st.is_udp_fd(i) && st.entry(i).proxy is None ==> (has_pending_data(st, i)
            <==> st.udp_socket(i).tx_bytes > 0 && st.udp_socket(i).endpoint.port != 0),
        st.entry(i).proxy is Some && st.entry(i).proxy->Some_0 is Stream
            && st.entry(i).proxy->Some_0->Stream_0.tx.len() > 0 ==> has_pending_data(st, i),
        st.entry(i).proxy is Some && st.entry(i).proxy->Some_0 is Datagram
            && st.entry(i).proxy->Some_0->Datagram_0.tx.len() > 0 ==> has_pending_data(st, i),
{
}

/// A descriptor in use can be closed at once in any way, but not where it is to wait for pending
/// data and there is some. The platform is to call again at once exactly if something has changed,
/// and otherwise when the time has come.
pub proof fn lemma_closing_and_calling(
    st: NetState,
    i: int,
    changed: bool,
    timeout: Option<u64>,
)
    ensures
        may_close(st, i, CloseBehavior::Immediate) <==> st.is_live(i),
        may_close(st, i, CloseBehavior::Graceful) <==> st.is_live(i),
        may_close(st, i, CloseBehavior::GracefulIfNoPendingData) <==> st.is_live(i)
            && !has_pending_data(st, i),
        advised(changed, timeout) is CallAgainImmediately <==> changed,
        !changed ==> advised(changed, timeout)->timeout == timeout,
{
}

/// A descriptor that is the last one for its socket is closed and its proxy is told so; one that has
/// others is queued for later; one with pending data is kept and marked.
pub proof fn lemma_close_is_finished(
    st: NetState,
    i: int,
    outcome: CloseOutcome,
    after: NetState,
    r: Result<Option<NetworkProxy>, CloseError>,
)
    requires
        st.is_live(i),
        finishes_close(st, i, outcome, after, r),
    ensures
        r is Ok <==> !(outcome is Deferred),
        outcome is Closed ==> {
            &&& !after.is_live(i)
            &&& r->Ok_0 is Some <==> st.entry(i).proxy is Some
            &&& r->Ok_0 is Some && st.entry(i).proxy->Some_0 is Stream ==> r->Ok_0->Some_0@
                is Stream && r->Ok_0->Some_0@->Stream_0.state is Closed
        },
        outcome is Duplicated ==> {
            &&& after.is_live(i)
            &&& after.entry(i) == st.entry(i)
            &&& after.sockets == st.sockets
            &&& after.queued.len() == st.queued.len() + 1
            &&& after.queued.last() == i
            &&& r->Ok_0 is None
        },
        outcome is Deferred ==> {
            &&& after.is_live(i)
            &&& after.entry(i).consider_closed
            &&& after.entry(i).handle == st.entry(i).handle
            &&& after.sockets == st.sockets
            &&& r->Err_0 == CloseError::DataPending
        },
{
}

/// Of the queued descriptors those are closed that have no others for their sockets, and exactly the
/// others stay queued.
pub proof fn lemma_queued_are_closed(st: NetState, unshared: Seq<int>, n: int, k: int)
    requires
        0 <= n <= st.queued.len(),
        0 <= k < n,
    ensures
        unshared.contains(st.queued[k]) ==> !close_queued(st, unshared, n).0.is_live(st.queued[k]),
        !unshared.contains(st.queued[k]) ==> close_queued(st, unshared, n).0.queued.contains(
            st.queued[k],
        ),
    decreases n,
{
    lemma_queue_only_closes(st, unshared, n);
    let (before, closed) = close_queued(st, unshared, n - 1);
    let after = close_queued(st, unshared, n).0;
    let i = st.queued[n - 1];
    if k < n - 1 {
        lemma_queued_are_closed(st, unshared, n - 1, k);
        if !unshared.contains(st.queued[k]) {
            let at = choose|at: int|
                0 <= at < before.queued.len() && before.queued[at] == st.queued[k];
            assert(after.queued[at] == st.queued[k]);
        }
    } else if !unshared.contains(i) {
        assert(after.queued[after.queued.len() - 1] == i);
    }
}

proof fn lemma_queue_only_closes(st: NetState, unshared: Seq<int>, n: int)
    requires
        0 <= n <= st.queued.len(),
    ensures
        close_queued(st, unshared, n).0.entries.len() == st.entries.len(),
        n > 0 ==> forall|j: int| #[trigger]
            close_queued(st, unshared, n).0.is_live(j) ==> close_queued(
                st,
                unshared,
                n - 1,
            ).0.is_live(j),
    decreases n,
{
    if n > 0 {
        lemma_queue_only_closes(st, unshared, n - 1);
    }
}

/// A TCP socket that closes in the background is removed once it is closed and its connection is
/// forgotten, and not before. All other sockets stay.
pub proof fn lemma_dead_sockets_are_removed(st: NetState, h: SocketHandle)
    requires
        st.sockets.contains_key(h),
    ensures
        ({
            let after = without_dead_sockets(st);
            let v = st.sockets[h]->Tcp_0;
            let dead = st.closing.contains(h) && (v.state is Closed || v.state is TimeWait)
                && v.ends is None;
            &&& after.sockets.contains_key(h) <==> !dead
            &&& !dead ==> after.sockets[h] == st.sockets[h]
            &&& st.closing.contains(h) ==> (after.closing.contains(h) <==> !dead)
            &&& after.entries == st.entries
            &&& after.ports == st.ports
            &&& after.queued == st.queued
        }),
{
    lemma_kept(st.closing, crate::net::network::is_dead_in(st.sockets), h);
    lemma_kept(st.closing, crate::net::network::is_lingering_in(st.sockets), h);
}

proof fn lemma_kept(all: Seq<SocketHandle>, keep: spec_fn(SocketHandle) -> bool, o: SocketHandle)
    ensures
        all.filter(keep).contains(o) <==> all.contains(o) && keep(o),
    decreases all.len(),
{
    reveal(Seq::filter);
    if all.len() > 0 {
        let head = all.drop_last();
        let fewer = head.filter(keep);
        let kept = all.filter(keep);
        lemma_kept(head, keep, o);
        if all.contains(o) {
            let k = choose|k: int| 0 <= k < all.len() && all[k] == o;
            if k < head.len() {
                assert(head[k] == o);
            }
        }
        if head.contains(o) {
            let k = choose|k: int| 0 <= k < head.len() && head[k] == o;
            assert(all[k] == o);
        }
        if kept.contains(o) {
            let k = choose|k: int| 0 <= k < kept.len() && kept[k] == o;
            if k < fewer.len() {
                assert(fewer[k] == o);
            } else {
                assert(all[all.len() - 1] == o);
            }
        }
        if fewer.contains(o) {
            let k = choose|k: int| 0 <= k < fewer.len() && fewer[k] == o;
            assert(kept[k] == o);
        }
        if keep(all.last()) {
            assert(kept[kept.len() - 1] == all.last());
        }
    }
}

/// A descriptor that is marked to be closed is closed as soon as no data is pending, and not before:
/// an established connection begins to close, and a UDP socket is no longer bound.
pub proof fn lemma_marked_are_closed(st: NetState, i: int)
    requires
        st.is_live(i),
    ensures
        ({
            let after = close_if_done(st, i);
            &&& !st.entry(i).consider_closed || has_pending_data(st, i) ==> after == st
            &&& st.entry(i).consider_closed && !has_pending_data(st, i) ==> {
                &&& after.is_live(i)
                &&& !after.entry(i).consider_closed
                &&& st.is_tcp_fd(i) && st.tcp_socket(i).state is Established ==> after.tcp_socket(
                    i,
                ).state is FinWait1
                &&& st.is_tcp_fd(i) && st.tcp_socket(i).state is CloseWait ==> after.tcp_socket(
                    i,
                ).state is LastAck
                &&& st.is_tcp_fd(i) && st.tcp_socket(i).state is SynSent ==> after.tcp_socket(
                    i,
                ).state is Closed
                &&& st.is_udp_fd(i) ==> after.udp_socket(i).endpoint.port == 0
            }
        }),
{
}

/// A channel learns that its socket is connected, and any error is then gone. While it connects, a
/// socket that is closed means that the connection was refused, or timed out after 75 seconds; while
/// it is connected, that the connection was reset. Nothing else is told.
pub proof fn lemma_channels_are_informed(
    ch: StreamView,
    v: TcpView,
    t: TcpSpecificView,
    now: i64,
)
    requires
        t.server is None,
        now >= 0,
        t.connect_initiated_at is Some ==> 0 <= t.connect_initiated_at->Some_0 <= now,
    ensures
        ({
            let after = informed(ch, v, t, now);
            let is_closed = v.state is Closed || v.state is TimeWait;
            let is_late = t.connect_initiated_at is Some && now - t.connect_initiated_at->Some_0
                >= 75_000_000;
            &&& after.rx == ch.rx
            &&& after.tx == ch.tx
            &&& v.state is Established ==> after.state is Connected && after.error is None
            &&& is_closed && ch.state is Connecting ==> after.state is Error && after.error == Some(
                if is_late {
                    SocketAsyncError::TimedOut
                } else {
                    SocketAsyncError::ConnectionRefused
                },
            )
            &&& is_closed && ch.state is Connected ==> after.state is Closed && after.error == Some(
                SocketAsyncError::ConnectionReset,
            )
            &&& is_closed && !(ch.state is Connecting) && !(ch.state is Connected) ==> after.state
                is Closed && after.error == ch.error
            &&& !is_closed && !(v.state is Established) ==> after == ch
        }),
{
}

/// A listening socket is told to be readable once a connection waits to be accepted.
pub proof fn lemma_ready_connections_are_readable(
    sockets: Map<SocketHandle, SocketView>,
    ch: StreamView,
    v: TcpView,
    t: TcpSpecificView,
    now: i64,
    k: int,
)
    requires
        ch.is_bounded(),
        ch.rx_available == 0,
        ch.rx.len() == 0,
        v.rx.len() == 0,
        t.server is Some,
        0 <= k < t.server->Some_0.handles.len(),
        sockets.contains_key(t.server->Some_0.handles[k]),
        sockets[t.server->Some_0.handles[k]] is Tcp,
        sockets[t.server->Some_0.handles[k]]->Tcp_0.state is Established,
    ensures
        ({
            let after = drained_stream(sockets, ch, v, t, now).0;
            &&& after.rx_available > 0
            &&& after.notified.len() > 0
            &&& after.notified.last().bits == 0x1
        }),
{
    assert(crate::net::network::is_established(sockets, t.server->Some_0.handles[k]));
    assert(crate::net::network::has_ready(sockets, t));
}

proof fn lemma_sent_in_order(ch: DatagramView, sent: Seq<Packet>, default: SocketAddrV4, n: int)
    requires
        0 <= n <= ch.tx.len(),
    ensures
        ({
            let (after, out) = sent_after(ch, sent, Some(default), n);
            &&& after.tx == ch.tx.skip(n)
            &&& after.rx == ch.rx
            &&& after.capacity == ch.capacity
            &&& out.len() == sent.len() + n
            &&& out.take(sent.len() as int) == sent
            &&& forall|k: int|
                0 <= k < n ==> (#[trigger] out[sent.len() + k]).data == ch.tx[k].data && out[sent.len()
                    + k].addr == match ch.tx[k].addr {
                    Some(SocketAddr::V4(a)) => a,
                    _ => default,
                }
        }),
    decreases n,
{
    let (after, out) = sent_after(ch, sent, Some(default), n);
    if n == 0 {
        assert(ch.tx.skip(0) =~= ch.tx);
        assert(sent.take(sent.len() as int) =~= sent);
    } else {
        lemma_sent_in_order(ch, sent, default, n - 1);
        let (before, fewer) = sent_after(ch, sent, Some(default), n - 1);
        assert(before.tx[0] == ch.tx[n - 1]);
        assert(after.tx =~= ch.tx.skip(n));
        assert(out.take(sent.len() as int) =~= fewer.take(sent.len() as int));
        assert forall|k: int| 0 <= k < n implies (#[trigger] out[sent.len() + k]).data
            == ch.tx[k].data && out[sent.len() + k].addr == match ch.tx[k].addr {
            Some(SocketAddr::V4(a)) => a,
            _ => default,
        } by {
            if k < n - 1 {
                assert(out[sent.len() + k] == fewer[sent.len() + k]);
            }
        }
    }
}

proof fn lemma_received_in_order(ch: DatagramView, packets: Seq<Packet>, n: int)
    requires
        0 <= n <= packets.len(),
    ensures
        ({
            let after = received_after(ch, packets, n);
            &&& after.tx == ch.tx
            &&& after.rx.len() == ch.rx.len() + n
            &&& forall|k: int| 0 <= k < ch.rx.len() ==> #[trigger] after.rx[k] == ch.rx[k]
            &&& forall|k: int|
                0 <= k < n ==> #[trigger] after.rx[ch.rx.len() + k] == (MessageView {
                    data: packets[k].data,
                    addr: Some(SocketAddr::V4(packets[k].addr)),
                })
        }),
    decreases n,
{
    if n > 0 {
        lemma_received_in_order(ch, packets, n - 1);
        let before = received_after(ch, packets, n - 1);
        let after = received_after(ch, packets, n);
        assert forall|k: int| 0 <= k < n implies #[trigger] after.rx[ch.rx.len() + k] == (
        MessageView {
            data: packets[k].data,
            addr: Some(SocketAddr::V4(packets[k].addr)),
        }) by {
            if k < n - 1 {
                assert(after.rx[ch.rx.len() + k] == before.rx[ch.rx.len() + k]);
            }
        }
    }
}

/// The datagrams of a channel go out in order, each with its bytes and to its own destination or
/// else to the default one; those that do not go out stay, in order. What arrived is read in order,
/// each with its bytes and where it came from, as far as there is room, and the rest stays.
pub proof fn lemma_datagrams_are_exchanged(
    ch: DatagramView,
    v: UdpView,
    default: SocketAddrV4,
    ch_after: DatagramView,
    v_after: UdpView,
)
    requires
        ch.is_bounded(),
        drains_datagrams(ch, v, Some(default), ch_after, v_after),
    ensures
        ch_after.tx.len() <= ch.tx.len(),
        v_after.tx.len() == v.tx.len() + (ch.tx.len() - ch_after.tx.len()),
        v_after.tx.take(v.tx.len() as int) == v.tx,
        forall|k: int|
            0 <= k < ch.tx.len() - ch_after.tx.len() ==> (#[trigger] v_after.tx[v.tx.len()
                + k]).data == ch.tx[k].data && v_after.tx[v.tx.len() + k].addr
                == match ch.tx[k].addr {
                Some(SocketAddr::V4(a)) => a,
                _ => default,
            },
        ch_after.tx == ch.tx.skip(ch.tx.len() - ch_after.tx.len()),
        v_after.rx.len() == 0 || ch_after.rx.len() == ch.capacity,
        ch_after.rx.len() + v_after.rx.len() == ch.rx.len() + v.rx.len(),
        forall|k: int| 0 <= k < ch.rx.len() ==> #[trigger] ch_after.rx[k] == ch.rx[k],
        forall|k: int|
            0 <= k < ch_after.rx.len() - ch.rx.len() ==> #[trigger] ch_after.rx[ch.rx.len() + k] == (
            MessageView {
                data: v.rx[k].data,
                addr: Some(SocketAddr::V4(v.rx[k].addr)),
            }),
        v_after.rx == v.rx.skip(ch_after.rx.len() - ch.rx.len()),
        v_after.endpoint == v.endpoint,
{
    let received = crate::net::ring::smaller((ch.capacity - ch.rx.len()) as nat, v.rx.len()) as int;
    let n = choose|n: int| {
        &&& 0 <= n <= ch.tx.len()
        &&& ch_after == received_after(
            (#[trigger] sent_after(ch, v.tx, Some(default), n)).0,
            v.rx,
            received,
        )
        &&& v_after.tx == sent_after(ch, v.tx, Some(default), n).1
        &&& v_after.rx == v.rx.skip(received)
        &&& v_after.endpoint == v.endpoint
        &&& v_after.tx_capacity == v.tx_capacity
        &&& n < ch.tx.len() ==> crate::net::network::stops_at(ch.tx[n], Some(default), v_after)
    };
    lemma_sent_in_order(ch, v.tx, default, n);
    lemma_received_in_order(sent_after(ch, v.tx, Some(default), n).0, v.rx, received);
}

} // verus!
