//! What holds of sockets, whatever is done with them.
use crate::net::errors::{
    AcceptError, BindError, CloseError, ConnectError, ListenError, ReceiveError, RemoteAddrError,
    SendError, SocketAsyncError, SocketError,
};
use crate::net::local_ports::LocalPortAllocationError;
use crate::net::network::{
    accepts, binds, can_listen, closes, connects, creates_socket, is_valid_network, listens,
    local_addr, pumped, received_from, receives, remote_addr, sends, timeout_from, NetState,
    SocketFd, SocketOwner, SpecificView,
};
use crate::net::network;
use crate::net::socket_channel::{NetworkProxy, StreamView};
use crate::net::sockets::{is_tcp, is_udp, TcpState, TcpView};
use crate::net::{CloseBehavior, Protocol, ReceiveFlags, SocketAddr, SocketAddrV4};
use smoltcp::iface::SocketHandle;
use vstd::prelude::*;

verus! {

/// Creating a TCP or UDP socket gives a descriptor that was not in use, for a closed and unbound
/// socket of its own that can hold 256 KiB to send. All other descriptors and sockets stay.
pub proof fn lemma_sockets_are_created(
    st: NetState,
    protocol: Protocol,
    after: NetState,
    r: Result<SocketFd, SocketError>,
)
    requires
        creates_socket(st, protocol, after, r),
        protocol is Tcp || protocol is Udp,
    ensures
        r is Ok,
        ({
            let i = r->Ok_0.number();
            let h = after.entries[i]->Some_0.handle;
            &&& !st.is_live(i)
            &&& after.is_live(i)
            &&& after.entry(i).proxy is None
            &&& !after.entry(i).consider_closed
            &&& !st.sockets.contains_key(h)
            &&& after.sockets.contains_key(h)
            &&& protocol is Tcp <==> after.entry(i).specific is Tcp
            &&& protocol is Tcp ==> after.sockets[h] is Tcp && after.tcp_socket(i).state is Closed
                && after.tcp_socket(i).tx_capacity == 0x40000 && after.tcp_socket(i).tx.len() == 0
                && after.tcp_socket(i).rx.len() == 0 && after.tcp_socket(i).ends is None
                && after.tcp(i).local_port is None && after.tcp(i).server is None
            &&& protocol is Udp ==> after.sockets[h] is Udp && after.udp_socket(i).endpoint.port == 0
                && after.udp_socket(i).tx_capacity == 0x40000 && after.udp_socket(i).rx.len() == 0
                && after.udp_socket(i).tx.len() == 0 && after.entry(i).specific == SpecificView::Udp(
                None,
            )
            &&& forall|j: int| #[trigger]
                st.is_live(j) ==> after.is_live(j) && after.entry(j) == st.entry(j)
            &&& forall|g: SocketHandle| #[trigger]
                st.sockets.contains_key(g) ==> after.sockets.contains_key(g) && after.sockets[g]
                    == st.sockets[g]
            &&& after.ports == st.ports
        }),
{
    assert forall|j: int| #[trigger] st.is_live(j) implies after.is_live(j) && after.entry(j)
        == st.entry(j) by {
        assert(after.entries[j] == st.entries[j]);
    }
}

/// Raw sockets cannot be created.
pub proof fn lemma_raw_sockets_are_refused(
    st: NetState,
    number: u8,
    after: NetState,
    r: Result<SocketFd, SocketError>,
)
    requires
        creates_socket(st, Protocol::Raw { protocol: number }, after, r),
    ensures
        r == Err::<SocketFd, SocketError>(SocketError::UnsupportedProtocol(number)),
        after == st,
{
}

/// An unbound socket can be bound to any free port, and then holds it: the address is that of the
/// socket, no other socket can be bound to the port, and nothing else changes.
pub proof fn lemma_bound_port_is_taken(
    st: NetState,
    i: int,
    local: SocketAddrV4,
    after: NetState,
    r: Result<(), BindError>,
    j: int,
    ip: u32,
    later: NetState,
    again: Result<(), BindError>,
)
    requires
        binds(st, i, SocketAddr::V4(local), after, r),
        st.is_live(i),
        st.entry(i).specific is Tcp ==> st.tcp(i).server is None,
        st.entry(i).specific is Udp ==> st.udp_socket(i).endpoint.port == 0,
        local.port != 0,
        !st.ports.contains_key(local.port),
        st.is_live(j),
        j != i,
        st.entry(j).specific is Tcp ==> st.tcp(j).server is None,
        binds(after, j, SocketAddr::V4(SocketAddrV4 { ip, port: local.port }), later, again),
    ensures
        r is Ok,
        after.is_live(i),
        after.ports.contains_key(local.port),
        st.entry(i).specific is Tcp ==> after.tcp(i).local_port == Some(local.port)
            && after.tcp(i).server is Some && after.tcp(i).server->Some_0.endpoint.addr == Some(
            local.ip,
        ) && after.tcp(i).server->Some_0.endpoint.port == local.port
            && after.tcp(i).server->Some_0.backlog is None
            && after.tcp(i).server->Some_0.handles.len() == 0 && after.sockets == st.sockets,
        st.entry(i).specific is Udp ==> local_addr(after, i) == SocketAddr::V4(local)
            && after.udp_socket(i).rx == st.udp_socket(i).rx,
        forall|p: u16| p != local.port ==> #[trigger] after.ports.contains_key(p)
            == st.ports.contains_key(p),
        after.entries[j] == st.entries[j],
        again == Err::<(), BindError>(BindError::PortAlreadyInUse(local.port)),
        later == after,
{
}

/// Binding to port 0 gives an ephemeral port that was free, if there is one.
pub proof fn lemma_binding_to_any_port(
    st: NetState,
    i: int,
    ip: u32,
    after: NetState,
    r: Result<(), BindError>,
)
    requires
        binds(st, i, SocketAddr::V4(SocketAddrV4 { ip, port: 0 }), after, r),
        st.is_live(i),
        st.entry(i).specific is Tcp ==> st.tcp(i).server is None,
        st.entry(i).specific is Udp ==> st.udp_socket(i).endpoint.port == 0,
    ensures
        r is Ok <==> exists|p: u16| 49152 <= p && !(#[trigger] st.ports.contains_key(p)),
        r is Ok && st.entry(i).specific is Tcp ==> after.tcp(i).local_port is Some
            && 49152 <= after.tcp(i).local_port->Some_0 && !st.ports.contains_key(
            after.tcp(i).local_port->Some_0,
        ) && after.ports.contains_key(after.tcp(i).local_port->Some_0)
            && after.tcp(i).server->Some_0.endpoint.port == after.tcp(i).local_port->Some_0,
        r is Ok && st.entry(i).specific is Udp ==> 49152 <= after.udp_socket(i).endpoint.port
            && !st.ports.contains_key(after.udp_socket(i).endpoint.port) && after.ports.contains_key(
            after.udp_socket(i).endpoint.port,
        ),
        r is Err ==> after == st,
{
}

/// A socket is bound once, and only to an IPv4 address.
pub proof fn lemma_refused_bindings(
    st: NetState,
    i: int,
    addr: SocketAddr,
    after: NetState,
    r: Result<(), BindError>,
)
    requires
        binds(st, i, addr, after, r),
    ensures
        addr is V6 ==> r == Err::<(), BindError>(BindError::UnsupportedAddress(addr)),
        addr is V4 && !st.is_live(i) ==> r == Err::<(), BindError>(BindError::InvalidFd),
        addr is V4 && st.is_tcp_fd(i) && st.tcp(i).server is Some ==> r == Err::<(), BindError>(
            BindError::AlreadyBound,
        ),
        r is Err ==> after == st,
{
}

/// A bound TCP socket that is made to listen has as many listening sockets as was asked for, but
/// never more than 8. They are new ones, each of its own, and all listen on the address that the
/// socket is bound to. No other socket changes.
pub proof fn lemma_backlog_listens(
    st: NetState,
    i: int,
    backlog: u16,
    after: NetState,
    r: Result<(), ListenError>,
)
    requires
        can_listen(st, i, backlog),
        st.is_live(i),
        st.tcp(i).server is Some,
        st.tcp(i).server->Some_0.endpoint.port != 0,
        listens(st, i, backlog, after, r),
    ensures
        r is Ok,
        ({
            let endpoint = st.tcp(i).server->Some_0.endpoint;
            let handles = after.tcp(i).server->Some_0.handles;
            &&& after.is_tcp_fd(i)
            &&& after.tcp(i).server is Some
            &&& after.tcp(i).server->Some_0.endpoint == endpoint
            &&& 1 <= backlog <= 8 ==> handles.len() == backlog
            &&& backlog > 8 ==> handles.len() == 8
            &&& after.tcp(i).server->Some_0.backlog is Some
            &&& after.tcp(i).server->Some_0.backlog->Some_0 == handles.len()
            &&& handles.no_duplicates()
            &&& forall|k: int|
                0 <= k < handles.len() ==> !st.sockets.contains_key(#[trigger] handles[k]) && is_tcp(
                    after.sockets,
                    handles[k],
                ) && after.sockets[handles[k]]->Tcp_0.state == TcpState::Listen
                    && after.sockets[handles[k]]->Tcp_0.listen == endpoint
                    && after.sockets[handles[k]]->Tcp_0.tx_capacity == 0x40000
            &&& forall|h: SocketHandle| #[trigger]
                st.sockets.contains_key(h) ==> after.sockets.contains_key(h) && after.sockets[h]
                    == st.sockets[h]
            &&& after.tcp(i).local_port == st.tcp(i).local_port
            &&& after.ports == st.ports
            &&& st.entry(i).proxy is Some && st.entry(i).proxy->Some_0 is Stream ==> after.entry(
                i,
            ).proxy is Some && after.entry(i).proxy->Some_0 is Stream && after.entry(
                i,
            ).proxy->Some_0->Stream_0.state is Listening
        }),
{
    let wanted = network::ServerView {
        backlog: Some(network::capped_backlog(backlog)),
        ..st.tcp(i).server->Some_0
    };
    let filled = choose|filled: network::ServerView| #[trigger]
        network::refills(st.sockets, wanted, after.sockets, filled) && after == (NetState {
            sockets: after.sockets,
            ..st.with_tcp_specific(
                i,
                network::TcpSpecificView { server: Some(filled), ..st.tcp(i) },
            ).with_proxy_state(i, crate::net::socket_channel::SocketState::Listening)
        });
    assert(after.tcp(i).server == Some(filled));
    assert forall|j: int, k: int|
        0 <= j < filled.handles.len() && 0 <= k < filled.handles.len() && j
            != k implies filled.handles[j] != filled.handles[k] by {
        if j < k {
        } else {
            assert(filled.handles[k] != filled.handles[j]);
        }
    }
}

/// A descriptor that is not in use cannot be made to listen, nor can a socket that is bound to no
/// port, nor one that is not bound while all ephemeral ports are taken. Nothing changes.
pub proof fn lemma_refused_listening(
    st: NetState,
    i: int,
    backlog: u16,
    after: NetState,
    r: Result<(), ListenError>,
)
    requires
        listens(st, i, backlog, after, r),
    ensures
        !st.is_live(i) ==> r == Err::<(), ListenError>(ListenError::InvalidFd) && after == st,
        st.is_tcp_fd(i) && st.tcp(i).server is Some && st.tcp(i).server->Some_0.endpoint.port == 0
            ==> r == Err::<(), ListenError>(ListenError::InvalidAddress) && after == st,
        st.is_tcp_fd(i) && st.tcp(i).server is None && (forall|p: u16|
            49152 <= p ==> #[trigger] st.ports.contains_key(p)) ==> r == Err::<(), ListenError>(
            ListenError::NoAvailableFreeEphemeralPorts,
        ) && after == st,
{
}

/// A socket that is not bound can be made to listen if an ephemeral port is free, and then listens
/// on such a port.
pub proof fn lemma_unbound_sockets_listen(
    st: NetState,
    i: int,
    backlog: u16,
    after: NetState,
    r: Result<(), ListenError>,
)
    requires
        can_listen(st, i, backlog),
        st.is_live(i),
        st.tcp(i).server is None,
        listens(st, i, backlog, after, r),
    ensures
        r is Ok <==> exists|p: u16| 49152 <= p && !(#[trigger] st.ports.contains_key(p)),
        r is Err ==> after == st,
        r is Ok ==> after.tcp(i).local_port is Some && 49152 <= after.tcp(i).local_port->Some_0
            && !st.ports.contains_key(after.tcp(i).local_port->Some_0)
            && after.tcp(i).server->Some_0.endpoint.port == after.tcp(i).local_port->Some_0,
        r is Ok ==> after.tcp(i).server->Some_0.handles.len() == if backlog < 8 {
            backlog as nat
        } else {
            8
        },
{
    if exists|p: u16| 49152 <= p && !(#[trigger] st.ports.contains_key(p)) {
        let port = choose|port: u16| #[trigger]
            network::may_get_port(st.ports, 0, port) && network::listens_bound(
                network::listen_bound(st, i, port),
                i,
                backlog,
                after,
                r,
            );
        let bound = network::listen_bound(st, i, port);
        assert(can_listen(bound, i, backlog));
        assert(listens(bound, i, backlog, after, r));
        lemma_backlog_listens(bound, i, backlog, after, r);
    }
}

/// If a connection to a listening socket is established, one such connection is accepted: the new
/// descriptor is for it, just as it is, and shares the local port. The backlog holds it no longer,
/// and is full again.
pub proof fn lemma_connections_are_accepted(
    st: NetState,
    i: int,
    after: NetState,
    r: Result<SocketFd, AcceptError>,
    k: int,
)
    requires
        accepts(st, i, after, r),
        st.is_tcp_fd(i),
        st.tcp(i).server is Some,
        st.tcp(i).server->Some_0.backlog is Some,
        0 <= k < st.tcp(i).server->Some_0.handles.len(),
        forall|a: int|
            0 <= a < st.tcp(i).server->Some_0.handles.len() ==> is_tcp(
                st.sockets,
                #[trigger] st.tcp(i).server->Some_0.handles[a],
            ),
        st.tcp(i).server->Some_0.handles.no_duplicates(),
        st.sockets[st.tcp(i).server->Some_0.handles[k]]->Tcp_0.state is Established,
    ensures
        r is Ok,
        ({
            let n = r->Ok_0.number();
            let h = after.entries[n]->Some_0.handle;
            &&& !st.is_live(n)
            &&& after.is_tcp_fd(n)
            &&& st.tcp(i).server->Some_0.handles.contains(h)
            &&& st.sockets[h]->Tcp_0.state is Established
            &&& after.sockets.contains_key(h)
            &&& after.sockets[h] == st.sockets[h]
            &&& after.tcp(n).local_port == st.tcp(i).local_port
            &&& after.tcp(n).server is None
            &&& after.is_tcp_fd(i)
            &&& after.tcp(i).server is Some
            &&& !after.tcp(i).server->Some_0.handles.contains(h)
            &&& after.tcp(i).server->Some_0.handles.len()
                >= st.tcp(i).server->Some_0.backlog->Some_0
            &&& after.tcp(i).server->Some_0.backlog == st.tcp(i).server->Some_0.backlog
            &&& forall|g: SocketHandle| #[trigger]
                st.sockets.contains_key(g) ==> after.sockets.contains_key(g) && after.sockets[g]
                    == st.sockets[g]
            &&& forall|g: SocketHandle| #[trigger]
                st.tcp(i).server->Some_0.handles.contains(g) && g != h
                    && st.sockets[g]->Tcp_0.state is Established
                    ==> after.tcp(i).server->Some_0.handles.contains(g)
        }),
        st.tcp(i).local_port is Some && st.ports[st.tcp(i).local_port->Some_0] < 65535
            ==> after.ports.contains_key(st.tcp(i).local_port->Some_0)
            && after.ports[st.tcp(i).local_port->Some_0] == st.ports[st.tcp(i).local_port->Some_0]
            + 1,
        st.tcp(i).local_port is None ==> after.ports == st.ports,
{
    let server = st.tcp(i).server->Some_0;
    let keep = network::is_open_in(st.sockets);
    let open = server.handles.filter(keep);
    network::lemma_filter_is_subset(server.handles, keep);
    assert(server.handles.contains(server.handles[k]));
    assert(open.contains(server.handles[k]));
    let a = choose|a: int| 0 <= a < open.len() && open[a] == server.handles[k];
    assert(network::is_established(st.sockets, open[a]));
    assert(r is Ok);
    let (p, filled) = choose|p: int, filled: network::ServerView| #[trigger]
        network::is_first_ready(st.sockets, open, p) && #[trigger] network::refills(
            st.sockets,
            network::ServerView { handles: network::swap_removed(open, p), ..server },
            after.sockets,
            filled,
        ) && after == network::accepted_state(st, i, open[p], filled, after.sockets);
    let n = r->Ok_0.number();
    let h = open[p];
    let rest = network::swap_removed(open, p);
    assert(after.entry(n).handle == h);
    assert(after.tcp(i).server == Some(filled));
    assert(server.handles.contains(open[p]));
    let b = choose|b: int| 0 <= b < server.handles.len() && server.handles[b] == open[p];
    assert(is_tcp(st.sockets, server.handles[b]));
    assert(!filled.handles.contains(h)) by {
        if filled.handles.contains(h) {
            let c = choose|c: int| 0 <= c < filled.handles.len() && filled.handles[c] == h;
            if c < rest.len() {
                assert(filled.handles.take(rest.len() as int)[c] == rest[c]);
                if c == p {
                    assert(rest[c] == open[open.len() - 1]);
                } else {
                    assert(rest[c] == open[c]);
                }
            } else {
                assert(!st.sockets.contains_key(filled.handles[c]));
            }
        }
    }
    assert forall|g: SocketHandle| #[trigger]
        server.handles.contains(g) && g != h
            && st.sockets[g]->Tcp_0.state is Established implies filled.handles.contains(g) by {
        assert(keep(g));
        assert(open.contains(g));
        let c = choose|c: int| 0 <= c < open.len() && open[c] == g;
        let d = if c == open.len() - 1 {
            p
        } else {
            c
        };
        assert(rest[d] == g);
        assert(filled.handles.take(rest.len() as int)[d] == rest[d]);
        assert(filled.handles[d] == g);
    }
}

/// If no connection is established, none is accepted, and no socket changes.
pub proof fn lemma_nothing_to_accept(
    st: NetState,
    i: int,
    after: NetState,
    r: Result<SocketFd, AcceptError>,
)
    requires
        accepts(st, i, after, r),
    ensures
        !st.is_live(i) ==> r == Err::<SocketFd, AcceptError>(AcceptError::InvalidFd),
        st.is_live(i) && (st.tcp(i).server is None || st.tcp(i).server->Some_0.backlog is None)
            ==> r == Err::<SocketFd, AcceptError>(AcceptError::NotListening),
        st.is_live(i) && st.tcp(i).server is Some && st.tcp(i).server->Some_0.backlog is Some && (
        forall|k: int|
            0 <= k < st.tcp(i).server->Some_0.handles.len() ==> !(st.sockets[#[trigger] st.tcp(i).server->Some_0.handles[k]]->Tcp_0.state is Established)) ==> r == Err::<SocketFd, AcceptError>(
            AcceptError::NoConnectionsReady,
        ),
        r is Err ==> after.sockets == st.sockets && after.ports == st.ports && after.entries.len()
            == st.entries.len(),
{
    if st.is_live(i) && st.tcp(i).server is Some && st.tcp(i).server->Some_0.backlog is Some && r is Ok {
        let server = st.tcp(i).server->Some_0;
        let keep = network::is_open_in(st.sockets);
        let open = server.handles.filter(keep);
        network::lemma_filter_is_subset(server.handles, keep);
        let (p, filled) = choose|p: int, filled: network::ServerView| #[trigger]
            network::is_first_ready(st.sockets, open, p) && #[trigger] network::refills(
                st.sockets,
                network::ServerView { handles: network::swap_removed(open, p), ..server },
                after.sockets,
                filled,
            ) && after == network::accepted_state(st, i, open[p], filled, after.sockets);
        assert(server.handles.contains(open[p]));
        let k = choose|k: int| 0 <= k < server.handles.len() && server.handles[k] == open[p];
        assert(st.sockets[server.handles[k]]->Tcp_0.state is Established);
    }
}

/// A closed TCP socket starts to connect to an address from an ephemeral port that was free. While
/// the connection is being established that is what is reported, also to the channel of the socket,
/// and the address is the remote address of the socket.
pub proof fn lemma_connecting(
    st: NetState,
    i: int,
    remote: SocketAddrV4,
    now: i64,
    after: NetState,
    r: Result<(), ConnectError>,
)
    requires
        connects(st, i, SocketAddr::V4(remote), false, now, after, r),
        st.is_tcp_fd(i),
        st.addrs.len() > 0,
        crate::net::sockets::source_address(st.addrs) is Some,
        remote.ip != 0,
        remote.port != 0,
        exists|p: u16| 49152 <= p && !(#[trigger] st.ports.contains_key(p)),
    ensures
        r == Err::<(), ConnectError>(ConnectError::InProgress),
        after.is_tcp_fd(i),
        after.tcp_socket(i).state == TcpState::SynSent,
        after.tcp_socket(i).timeout == Some(75_000_000u64),
        remote_addr(after, i) == Ok::<SocketAddr, RemoteAddrError>(SocketAddr::V4(remote)),
        after.tcp(i).connect_initiated_at == Some(now),
        st.entry(i).proxy is Some && st.entry(i).proxy->Some_0 is Stream ==> after.entry(
            i,
        ).proxy is Some && after.entry(i).proxy->Some_0 is Stream && after.entry(
            i,
        ).proxy->Some_0->Stream_0.state is Connecting,
        after.tcp(i).local_port is Some,
        ({
            let port = after.tcp(i).local_port->Some_0;
            &&& 49152 <= port
            &&& !st.ports.contains_key(port)
            &&& after.ports.contains_key(port)
            &&& local_addr(after, i) == SocketAddr::V4(
                SocketAddrV4 { ip: crate::net::sockets::source_address(st.addrs)->Some_0, port },
            )
        }),
{
    assert(crate::net::local_ports::can_allocate(st.ports, 0));
    let ip = crate::net::sockets::source_address(st.addrs)->Some_0;
    let port = choose|port: u16| #[trigger]
        network::may_get_port(st.ports, 0, port) && (after, r) == network::progress_result(
            network::tcp_connecting(st, i, ip, port, remote, now),
            i,
            TcpState::SynSent,
            now,
        );
    assert(after.tcp(i).local_port == Some(port));
}

/// Asking how far a connection has come says that it is established, that it is on the way, or that
/// it failed, also to the channel of the socket. It changes no socket.
pub proof fn lemma_progress(
    st: NetState,
    i: int,
    remote: SocketAddrV4,
    now: i64,
    after: NetState,
    r: Result<(), ConnectError>,
)
    requires
        connects(st, i, SocketAddr::V4(remote), true, now, after, r),
        st.is_tcp_fd(i),
    ensures
        r is Ok <==> st.tcp_socket(i).state is Established,
        r == Err::<(), ConnectError>(ConnectError::InProgress) <==> st.tcp_socket(
            i,
        ).state is SynSent,
        r == Err::<(), ConnectError>(ConnectError::TimedOut) ==> st.entry(i).proxy is Some
            && st.tcp(i).connect_initiated_at is Some && (now - st.tcp(i).connect_initiated_at->Some_0
            >= 75_000_000 || st.tcp(i).connect_initiated_at->Some_0 - now >= 75_000_000),
        st.entry(i).proxy is Some && st.tcp(i).connect_initiated_at is Some && now - st.tcp(
            i,
        ).connect_initiated_at->Some_0 >= 75_000_000 && !(st.tcp_socket(i).state is Established)
            && !(st.tcp_socket(i).state is SynSent) ==> r == Err::<(), ConnectError>(
            ConnectError::TimedOut,
        ),
        st.entry(i).proxy is Some && st.entry(i).proxy->Some_0 is Stream ==> {
            let ch = after.entry(i).proxy->Some_0->Stream_0;
            &&& after.entry(i).proxy is Some
            &&& after.entry(i).proxy->Some_0 is Stream
            &&& r is Ok ==> ch.state is Connected
            &&& r is Err && r->Err_0 == ConnectError::InProgress ==> ch.state is Connecting
            &&& r is Err && r->Err_0 == ConnectError::TimedOut ==> ch.error == Some(
                SocketAsyncError::TimedOut,
            )
            &&& r is Err && r->Err_0 == ConnectError::InvalidState ==> ch.error == Some(
                SocketAsyncError::ConnectionRefused,
            )
        },
        r is Ok || r->Err_0 == ConnectError::InProgress || r->Err_0 == ConnectError::TimedOut
            || r->Err_0 == ConnectError::InvalidState,
        after.sockets == st.sockets,
        after.ports == st.ports,
{
}

/// What cannot be connected stays as it is.
pub proof fn lemma_refused_connections(
    st: NetState,
    i: int,
    addr: SocketAddr,
    now: i64,
    after: NetState,
    r: Result<(), ConnectError>,
)
    requires
        connects(st, i, addr, false, now, after, r),
    ensures
        addr is V6 ==> r == Err::<(), ConnectError>(ConnectError::UnsupportedAddress(addr)),
        addr is V4 && !st.is_live(i) ==> r == Err::<(), ConnectError>(ConnectError::InvalidFd),
        addr is V4 && st.is_live(i) && addr->V4_0.port == 0 && (exists|p: u16|
            49152 <= p && !(#[trigger] st.ports.contains_key(p))) ==> r == Err::<(), ConnectError>(
            ConnectError::Unaddressable,
        ),
        addr is V4 && st.is_tcp_fd(i) && (forall|p: u16|
            49152 <= p ==> #[trigger] st.ports.contains_key(p)) ==> r == Err::<(), ConnectError>(
            ConnectError::PortAllocationFailure(LocalPortAllocationError::NoAvailableFreePorts),
        ),
        r is Err && r->Err_0 != ConnectError::InProgress ==> after.sockets == st.sockets
            && after.ports == st.ports,
{
}

/// A UDP socket that is connected to an address sends there whatever is sent without a destination,
/// as a datagram of its own after those that were sent before.
pub proof fn lemma_connected_datagrams(
    st: NetState,
    i: int,
    remote: SocketAddrV4,
    now: i64,
    after: NetState,
    r: Result<(), ConnectError>,
    data: Seq<u8>,
    later: NetState,
    sent: Result<usize, SendError>,
)
    requires
        st.is_udp_fd(i),
        is_udp(st.sockets, st.entry(i).handle),
        remote.port != 0,
        remote.ip != 0,
        st.udp_socket(i).endpoint.port != 0,
        connects(st, i, SocketAddr::V4(remote), false, now, after, r),
        sends(after, i, data, None, later, sent),
    ensures
        r is Ok,
        remote_addr(after, i) == Ok::<SocketAddr, RemoteAddrError>(SocketAddr::V4(remote)),
        after.sockets == st.sockets,
        st.entry(i).proxy is Some && st.entry(i).proxy->Some_0 is Datagram ==> after.entry(
            i,
        ).proxy is Some && after.entry(i).proxy->Some_0 is Datagram && after.entry(
            i,
        ).proxy->Some_0->Datagram_0.is_connected,
        sent is Ok || sent == Err::<usize, SendError>(SendError::BufferFull),
        sent is Ok <==> st.udp_socket(i).fits.contains(data.len()),
        sent is Ok ==> sent->Ok_0 == data.len(),
        sent is Ok ==> later.udp_socket(i).tx.len() == st.udp_socket(i).tx.len() + 1
            && later.udp_socket(i).tx.last().data == data && later.udp_socket(i).tx.last().addr
            == remote && later.udp_socket(i).tx.drop_last() == st.udp_socket(i).tx,
        later.udp_socket(i).rx == st.udp_socket(i).rx,
{
    if sent is Ok {
        assert(later.udp_socket(i).tx.drop_last() =~= st.udp_socket(i).tx);
    }
}

/// A UDP socket that is connected while it is unbound is bound to an ephemeral port that was free.
pub proof fn lemma_connecting_datagrams_binds(
    st: NetState,
    i: int,
    remote: SocketAddrV4,
    now: i64,
    after: NetState,
    r: Result<(), ConnectError>,
)
    requires
        st.is_udp_fd(i),
        remote.port != 0,
        st.udp_socket(i).endpoint.port == 0,
        connects(st, i, SocketAddr::V4(remote), false, now, after, r),
    ensures
        r is Ok <==> exists|p: u16| 49152 <= p && !(#[trigger] st.ports.contains_key(p)),
        r is Ok ==> remote_addr(after, i) == Ok::<SocketAddr, RemoteAddrError>(
            SocketAddr::V4(remote),
        ) && 49152 <= after.udp_socket(i).endpoint.port && !st.ports.contains_key(
            after.udp_socket(i).endpoint.port,
        ) && after.ports.contains_key(after.udp_socket(i).endpoint.port),
        r is Err ==> after == st,
{
}

/// What is sent over a connection follows what was sent before, byte for byte: as much of the start
/// of it as there is room for, which is all of it if there is room for all.
pub proof fn lemma_stream_is_sent(
    st: NetState,
    i: int,
    data: Seq<u8>,
    after: NetState,
    r: Result<usize, SendError>,
)
    requires
        st.is_tcp_fd(i),
        is_tcp(st.sockets, st.entry(i).handle),
        st.tcp_socket(i).tx.len() <= st.tcp_socket(i).tx_capacity,
        data.len() <= usize::MAX,
        sends(st, i, data, None, after, r),
    ensures
        r is Ok <==> st.tcp_socket(i).state is Established || st.tcp_socket(i).state is CloseWait,
        r is Err ==> r == Err::<usize, SendError>(SendError::SocketInInvalidState) && after.sockets
            == st.sockets,
        r is Ok ==> ({
            let n = r->Ok_0;
            let before = st.tcp_socket(i).tx;
            let now = after.tcp_socket(i).tx;
            &&& n <= data.len()
            &&& n == data.len() || before.len() + n == st.tcp_socket(i).tx_capacity
            &&& now.len() == before.len() + n
            &&& forall|k: int| 0 <= k < before.len() ==> #[trigger] now[k] == before[k]
            &&& forall|k: int| 0 <= k < n ==> now[before.len() + k] == #[trigger] data[k]
            &&& after.tcp_socket(i).rx == st.tcp_socket(i).rx
            &&& after.tcp_socket(i).state == st.tcp_socket(i).state
        }),
        after.entries == st.entries,
        after.ports == st.ports,
{
}

/// A connection takes no destination, and a socket that is not connected needs one.
pub proof fn lemma_destinations(
    st: NetState,
    i: int,
    data: Seq<u8>,
    destination: Option<SocketAddr>,
    after: NetState,
    r: Result<usize, SendError>,
)
    requires
        sends(st, i, data, destination, after, r),
    ensures
        !st.is_live(i) ==> r == Err::<usize, SendError>(SendError::InvalidFd),
        st.is_tcp_fd(i) && destination is Some ==> r == Err::<usize, SendError>(
            SendError::UnnecessaryDestinationAddress,
        ),
        st.is_udp_fd(i) && destination is None && st.entry(i).specific == SpecificView::Udp(None)
            ==> r == Err::<usize, SendError>(SendError::DestinationAddressRequired),
        r is Err && !st.is_live(i) ==> after == st,
{
}

/// A datagram for a destination goes there, whatever the socket is connected to, after those that
/// were sent before. An unbound socket is bound to an ephemeral port first.
pub proof fn lemma_datagrams_are_sent(
    st: NetState,
    i: int,
    data: Seq<u8>,
    to: SocketAddrV4,
    after: NetState,
    r: Result<usize, SendError>,
)
    requires
        st.is_udp_fd(i),
        is_udp(st.sockets, st.entry(i).handle),
        sends(st, i, data, Some(SocketAddr::V4(to)), after, r),
    ensures
        st.udp_socket(i).endpoint.port != 0 && to.ip != 0 && to.port != 0 ==> (r is Ok
            <==> st.udp_socket(i).fits.contains(data.len())),
        st.udp_socket(i).endpoint.port != 0 && (to.ip == 0 || to.port == 0) ==> r == Err::<
            usize,
            SendError,
        >(SendError::Unaddressable),
        r is Ok ==> r->Ok_0 == data.len() && after.udp_socket(i).tx.len() == st.udp_socket(
            i,
        ).tx.len() + 1 && after.udp_socket(i).tx.last().data == data
            && after.udp_socket(i).tx.last().addr == to && after.udp_socket(i).tx.drop_last()
            == st.udp_socket(i).tx,
        st.udp_socket(i).endpoint.port == 0 && r is Ok ==> 49152 <= after.udp_socket(
            i,
        ).endpoint.port && !st.ports.contains_key(after.udp_socket(i).endpoint.port),
        st.udp_socket(i).endpoint.port != 0 ==> after.udp_socket(i).endpoint == st.udp_socket(
            i,
        ).endpoint && after.ports == st.ports,
        after.udp_socket(i).rx == st.udp_socket(i).rx,
{
    if r is Ok {
        assert(after.udp_socket(i).tx.drop_last() =~= st.udp_socket(i).tx);
    }
}

/// What is received over a connection is what has come in, byte for byte and in order: the buffer
/// is filled from its start as far as there is anything, and what does not fit is received next.
pub proof fn lemma_stream_is_received(
    st: NetState,
    i: int,
    first_piece: nat,
    buf: Seq<u8>,
    flags: ReceiveFlags,
    after: NetState,
    buf_after: Seq<u8>,
    r: Result<usize, ReceiveError>,
)
    requires
        st.is_tcp_fd(i),
        is_tcp(st.sockets, st.entry(i).handle),
        flags.bits & 0x8000 == 0,
        buf.len() <= usize::MAX,
        receives(st, i, first_piece, buf, flags, after, buf_after, r),
    ensures
        st.tcp_socket(i).rx.len() > 0 ==> r is Ok,
        r is Ok ==> ({
            let n = r->Ok_0;
            let rx = st.tcp_socket(i).rx;
            &&& n <= buf.len() && n <= rx.len()
            &&& n == buf.len() || n == rx.len()
            &&& buf_after.len() == buf.len()
            &&& forall|k: int| 0 <= k < n ==> #[trigger] buf_after[k] == rx[k]
            &&& forall|k: int| n <= k < buf.len() ==> #[trigger] buf_after[k] == buf[k]
            &&& after.tcp_socket(i).rx.len() == rx.len() - n
            &&& forall|k: int|
                0 <= k < rx.len() - n ==> #[trigger] after.tcp_socket(i).rx[k] == rx[n + k]
            &&& after.tcp_socket(i).tx == st.tcp_socket(i).tx
            &&& after.tcp_socket(i).state == st.tcp_socket(i).state
        }),
        r is Err ==> buf_after == buf && after == st && (r->Err_0 == ReceiveError::OperationFinished
            <==> st.tcp_socket(i).rx_finished),
        st.tcp_socket(i).rx.len() == 0 ==> (r is Ok <==> st.tcp_socket(i).state is Established
            || st.tcp_socket(i).state is FinWait1 || st.tcp_socket(i).state is FinWait2),
        after.entries == st.entries,
        after.ports == st.ports,
{
    let bits = flags.bits;
    assert(bits & 0x8000 == 0 ==> bits & 0x8000 != 0x8000) by (bit_vector);
}

/// A datagram is received as a whole: the buffer is filled from its start with the eldest one as
/// far as both reach, the rest of it is lost, and its source is reported. With the flag to truncate
/// the size of the datagram is returned, else how much of it was copied.
pub proof fn lemma_datagrams_are_received(
    st: NetState,
    i: int,
    first_piece: nat,
    buf: Seq<u8>,
    flags: ReceiveFlags,
    after: NetState,
    buf_after: Seq<u8>,
    r: Result<usize, ReceiveError>,
    source: Option<SocketAddr>,
)
    requires
        st.is_udp_fd(i),
        is_udp(st.sockets, st.entry(i).handle),
        flags.bits & 0x8000 == 0,
        buf.len() <= usize::MAX,
        receives(st, i, first_piece, buf, flags, after, buf_after, r),
        st.udp_socket(i).rx.len() > 0,
    ensures
        r is Ok,
        ({
            let data = st.udp_socket(i).rx[0].data;
            let n = if buf.len() < data.len() {
                buf.len() as int
            } else {
                data.len() as int
            };
            &&& buf_after.len() == buf.len()
            &&& forall|k: int| 0 <= k < n ==> #[trigger] buf_after[k] == data[k]
            &&& forall|k: int| n <= k < buf.len() ==> #[trigger] buf_after[k] == buf[k]
            &&& flags.bits & 0x20 == 0 ==> r->Ok_0 == n
            &&& flags.bits & 0x20 == 0x20 ==> r->Ok_0 == data.len()
            &&& after.udp_socket(i).rx.len() == st.udp_socket(i).rx.len() - 1
            &&& forall|k: int|
                0 <= k < after.udp_socket(i).rx.len() ==> #[trigger] after.udp_socket(i).rx[k]
                    == st.udp_socket(i).rx[k + 1]
            &&& after.udp_socket(i).tx == st.udp_socket(i).tx
            &&& received_from(st, i, source) == Some(SocketAddr::V4(st.udp_socket(i).rx[0].addr))
        }),
{
    let bits = flags.bits;
    assert(bits & 0x8000 == 0 ==> bits & 0x8000 != 0x8000) by (bit_vector);
    assert(bits & 0x20 == 0 ==> bits & 0x20 != 0x20) by (bit_vector);
}

/// What is discarded is gone, and the buffer stays.
pub proof fn lemma_received_is_discarded(
    st: NetState,
    i: int,
    first_piece: nat,
    buf: Seq<u8>,
    flags: ReceiveFlags,
    after: NetState,
    buf_after: Seq<u8>,
    r: Result<usize, ReceiveError>,
)
    requires
        st.is_live(i),
        st.is_tcp_fd(i) ==> is_tcp(st.sockets, st.entry(i).handle),
        st.is_udp_fd(i) ==> is_udp(st.sockets, st.entry(i).handle),
        flags.bits & 0x8000 == 0x8000,
        receives(st, i, first_piece, buf, flags, after, buf_after, r),
    ensures
        buf_after =~= buf,
        st.is_tcp_fd(i) ==> after.tcp_socket(i).rx.len() == 0,
        st.is_tcp_fd(i) && st.tcp_socket(i).state is Established && st.tcp_socket(i).rx.len()
            <= usize::MAX ==> r == Ok::<usize, ReceiveError>(st.tcp_socket(i).rx.len() as usize),
        st.is_udp_fd(i) && st.udp_socket(i).rx.len() > 0 ==> after.udp_socket(i).rx.len()
            == st.udp_socket(i).rx.len() - 1 && r is Ok && r->Ok_0
            == st.udp_socket(i).rx[0].data.len(),
{
}

/// A descriptor that is closed is in use no longer, and its local port is free again unless other
/// sockets share it. A UDP socket is gone at once. A TCP socket goes on closing in the background,
/// or is closed at once if that was asked for, and nothing listens for it any more. Its proxy learns
/// that it is closed. All other descriptors stay.
pub proof fn lemma_closed_sockets(
    st: NetState,
    owners: Map<SocketHandle, SocketOwner>,
    i: int,
    behavior: CloseBehavior,
    after: NetState,
    r: Result<Option<NetworkProxy>, CloseError>,
)
    requires
        is_valid_network(st, owners),
        st.is_live(i),
        behavior is Immediate || behavior is Graceful,
        closes(st, i, behavior, after, r),
    ensures
        r is Ok,
        !after.is_live(i),
        forall|j: int| j != i && #[trigger] st.is_live(j) ==> after.is_live(j) && after.entry(j)
            == st.entry(j),
        r->Ok_0 is Some <==> st.entry(i).proxy is Some,
        st.is_udp_fd(i) ==> !after.sockets.contains_key(st.entry(i).handle),
        st.is_udp_fd(i) && st.udp_socket(i).endpoint.port != 0 && st.ports[st.udp_socket(i).endpoint.port] == 1 ==> !after.ports.contains_key(st.udp_socket(i).endpoint.port),
        st.is_tcp_fd(i) && st.tcp(i).local_port is Some && st.ports[st.tcp(i).local_port->Some_0]
            == 1 ==> !after.ports.contains_key(st.tcp(i).local_port->Some_0),
        st.is_tcp_fd(i) ==> after.closing.contains(st.entry(i).handle) && is_tcp(
            after.sockets,
            st.entry(i).handle,
        ),
        st.is_tcp_fd(i) && behavior is Immediate ==> after.sockets[st.entry(i).handle]->Tcp_0.state
            == TcpState::Closed,
        st.is_tcp_fd(i) && behavior is Graceful && !st.tcp(i).immediate_close && st.tcp_socket(
            i,
        ).state is Established ==> after.sockets[st.entry(i).handle]->Tcp_0.state
            == TcpState::FinWait1 && after.sockets[st.entry(i).handle]->Tcp_0.tx == st.tcp_socket(
            i,
        ).tx,
        st.is_tcp_fd(i) && st.tcp(i).server is Some ==> forall|k: int|
            0 <= k < st.tcp(i).server->Some_0.handles.len() ==> !after.sockets.contains_key(
                #[trigger] st.tcp(i).server->Some_0.handles[k],
            ),
{
    assert forall|j: int| j != i && #[trigger] st.is_live(j) implies after.is_live(j)
        && after.entry(j) == st.entry(j) by {
        assert(after.entries[j] == st.entries[j]);
    }
    assert(network::is_valid_entry(st.sockets, owners, i, st.entry(i)));
    if st.is_tcp_fd(i) {
        let closing = after.closing;
        assert(closing[closing.len() - 1] == st.entry(i).handle);
        if st.tcp(i).server is Some {
            let handles = st.tcp(i).server->Some_0.handles;
            assert forall|k: int| 0 <= k < handles.len() implies !after.sockets.contains_key(
                #[trigger] handles[k],
            ) by {
                assert(handles.contains(handles[k]));
                assert(is_tcp(st.sockets, handles[k]));
            }
        }
    }
}

/// A descriptor that is to be closed only if nothing is left to be sent stays in use while there is
/// something, and is closed later. One that is not in use cannot be closed.
pub proof fn lemma_pending_data_is_kept(
    st: NetState,
    i: int,
    after: NetState,
    r: Result<Option<NetworkProxy>, CloseError>,
)
    requires
        closes(st, i, CloseBehavior::GracefulIfNoPendingData, after, r),
    ensures
        !st.is_live(i) ==> r is Err && r->Err_0 == CloseError::InvalidFd && after == st,
        st.is_tcp_fd(i) && (st.tcp_socket(i).state is Established || st.tcp_socket(
            i,
        ).state is CloseWait) && st.tcp_socket(i).tx.len() > 0 ==> r is Err && r->Err_0
            == CloseError::DataPending && after.is_live(i) && after.entry(i).consider_closed
            && after.sockets == st.sockets && after.ports == st.ports,
        st.is_tcp_fd(i) && st.entry(i).proxy is None && st.tcp_socket(i).tx.len() == 0 ==> r is Ok
            && !after.is_live(i),
{
}

/// What a channel holds to be sent goes to its socket as long as there is room, and what the socket
/// has received goes to the channel as long as there is room. What does not fit stays, in order.
pub proof fn lemma_pumping_moves_all_that_fits(ch: StreamView, v: TcpView)
    requires
        ch.is_bounded(),
        v.tx.len() <= v.tx_capacity,
    ensures
        ({
            let (after, socket) = pumped(ch, v);
            &&& v.state is Established || v.state is CloseWait ==> after.tx.len() == 0
                || socket.tx.len() == v.tx_capacity
            &&& !(v.state is Established) && !(v.state is CloseWait) ==> after.tx == ch.tx
                && socket.tx == v.tx
            &&& socket.rx.len() == 0 || after.rx.len() == ch.rx_capacity
            &&& socket.tx + after.tx == v.tx + ch.tx
            &&& after.rx + socket.rx == ch.rx + v.rx
        }),
{
    network::lemma_pumping_loses_nothing(ch, v);
}

/// An interface is to be polled again when it wants to be, or at once if that time has passed.
pub proof fn lemma_polling_is_on_time(now: i64, at: i64)
    requires
        now >= 0,
    ensures
        timeout_from(now, None) is None,
        timeout_from(now, Some(at)) is Some,
        now <= at ==> now + timeout_from(now, Some(at))->Some_0 == at,
        at <= now ==> timeout_from(now, Some(at)) == Some(0u64),
{
}

} // verus!
