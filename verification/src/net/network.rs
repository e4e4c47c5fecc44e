//! The network: sockets by descriptor, their local ports and their channels.
use crate::bytes;
use crate::event::Events;
use crate::net::errors::{
    AcceptError, BindError, CloseError, ConnectError, GetTcpOptionError, ListenError,
    LocalAddrError, ReceiveError, RemoteAddrError, SendError, SetTcpOptionError, SocketAsyncError,
    SocketError,
};
use crate::net::local_ports;
use crate::net::local_ports::{can_allocate, LocalPort, LocalPortAllocationError, LocalPortAllocator};
use crate::net::ring::{smaller, MessageView};
use crate::net::socket_channel::{
    is_v6, DatagramSocketChannel, DatagramView, NetworkProxy, ProxyView, SocketState,
    StreamSocketChannel, StreamView,
};
use crate::net::sockets;
use crate::net::sockets::{
    can_address, is_tcp, is_udp, recv_error, sockets_of, source_address, tcp_at, tcp_sends, udp_at, udp_sends, with_tcp,
    with_udp, ListenEndpoint, Packet, SocketView, TcpRecvError, TcpState, TcpView, UdpSendError,
    UdpView,
};
use crate::net::{
    CloseBehavior, CongestionControl, PlatformInteraction, PlatformInteractionReinvocationAdvice,
    Protocol, ReceiveFlags, SendFlags, SocketAddr, SocketAddrV4, TcpOptionData, TcpOptionName,
    SOCKET_BUFFER_SIZE,
};
use smoltcp::iface::{Interface, SocketHandle, SocketSet};
use vstd::prelude::*;

verus! {

/// Limits maximum number of packets in a buffer.
pub const MAX_PACKET_COUNT: usize = 32;

/// TCP connection timeout, in microseconds.
pub const TCP_CONNECT_TIMEOUT: u64 = 75_000_000;

/// The address of the interface: 10.0.0.2.
pub const INTERFACE_IP_ADDR: u32 = 0x0a00_0002;

/// The length of the network prefix of the address.
pub const INTERFACE_PREFIX_LEN: u8 = 24;

/// The gateway: 10.0.0.1.
pub const GATEWAY_IP_ADDR: u32 = 0x0a00_0001;

/// The largest backlog of a listening socket.
pub const MAX_BACKLOG: u16 = 8;

/// A descriptor of a socket.
#[derive(Clone, Copy, Debug, PartialEq, Eq, Structural)]
pub struct SocketFd {
    index: usize,
}

impl SocketFd {
    /// The number of the descriptor.
    pub closed spec fn number(&self) -> int {
        self.index as int
    }
}

/// The numbers of descriptors.
pub open spec fn numbers(fds: Seq<SocketFd>) -> Seq<int> {
    fds.map_values(|fd: SocketFd| fd.number())
}

/// Socket-specific data for TCP server sockets.
pub struct TcpServerSpecific {
    /// IP listening endpoint, if used as a server socket
    ip_listen_endpoint: ListenEndpoint,
    /// Specified backlog via `listen`, no packets can be `accept`ed unless this is `Some`
    backlog: Option<u16>,
    /// Handles into the top-level `socket_set` for when things are `accept`ed.
    socket_set_handles: Vec<SocketHandle>,
}

/// Socket-specific data for TCP sockets.
pub struct TcpSpecific {
    /// A local port associated with this socket, if any
    local_port: Option<LocalPort>,
    /// Server socket specific data
    server_socket: Option<TcpServerSpecific>,
    /// Whether to immediately close the socket when closed (i.e., no graceful FIN handshake)
    immediate_close: bool,
    /// Timestamp when `connect` was initiated, in microseconds
    connect_initiated_at_us: Option<i64>,
}

/// Socket-specific data for UDP sockets.
pub struct UdpSpecific {
    /// If `connect`-ed, this is the remote endpoint to which packets are sent by default.
    remote_endpoint: Option<SocketAddrV4>,
}

/// Socket-type-specific data.
pub enum ProtocolSpecific {
    Tcp(TcpSpecific),
    Udp(UdpSpecific),
}

/// All that belongs to a descriptor, _except_ the socket itself, which is in the socket set.
pub struct SocketEntry {
    /// Whether this socket is going away soon (i.e., `close` has been invoked upon it but it
    /// lingers for a bit to allow pending data to be sent).
    consider_closed: bool,
    /// The handle into the `socket_set`
    handle: SocketHandle,
    specific: ProtocolSpecific,
    /// The proxy associated with this socket
    proxy: Option<NetworkProxy>,
}

/// The value of a [`TcpServerSpecific`].
#[verifier::ext_equal]
pub struct ServerView {
    pub endpoint: ListenEndpoint,
    pub backlog: Option<u16>,
    pub handles: Seq<SocketHandle>,
}

/// The value of a [`TcpSpecific`].
#[verifier::ext_equal]
pub struct TcpSpecificView {
    pub local_port: Option<u16>,
    pub server: Option<ServerView>,
    pub immediate_close: bool,
    pub connect_initiated_at: Option<i64>,
}

/// The value of a [`ProtocolSpecific`].
pub enum SpecificView {
    Tcp(TcpSpecificView),
    Udp(Option<SocketAddrV4>),
}

/// The value of a [`SocketEntry`].
#[verifier::ext_equal]
pub struct EntryView {
    pub consider_closed: bool,
    pub handle: SocketHandle,
    pub specific: SpecificView,
    pub proxy: Option<ProxyView>,
}

/// The specific data of a new TCP socket.
pub open spec fn fresh_tcp() -> TcpSpecificView {
    TcpSpecificView {
        local_port: None,
        server: None,
        immediate_close: false,
        connect_initiated_at: None,
    }
}

/// The entry of a new socket.
pub open spec fn fresh_entry(handle: SocketHandle, specific: SpecificView) -> EntryView {
    EntryView { consider_closed: false, handle, specific, proxy: None }
}

impl View for TcpServerSpecific {
    type V = ServerView;

    closed spec fn view(&self) -> ServerView {
        ServerView {
            endpoint: self.ip_listen_endpoint,
            backlog: self.backlog,
            handles: self.socket_set_handles@,
        }
    }
}

impl View for TcpSpecific {
    type V = TcpSpecificView;

    closed spec fn view(&self) -> TcpSpecificView {
        TcpSpecificView {
            local_port: match self.local_port {
                Some(p) => Some(p.number()),
                None => None,
            },
            server: match self.server_socket {
                Some(s) => Some(s@),
                None => None,
            },
            immediate_close: self.immediate_close,
            connect_initiated_at: self.connect_initiated_at_us,
        }
    }
}

impl View for ProtocolSpecific {
    type V = SpecificView;

    closed spec fn view(&self) -> SpecificView {
        match self {
            ProtocolSpecific::Tcp(t) => SpecificView::Tcp(t@),
            ProtocolSpecific::Udp(u) => SpecificView::Udp(u.remote_endpoint),
        }
    }
}

impl View for SocketEntry {
    type V = EntryView;

    closed spec fn view(&self) -> EntryView {
        EntryView {
            consider_closed: self.consider_closed,
            handle: self.handle,
            specific: self.specific@,
            proxy: match self.proxy {
                Some(p) => Some(p@),
                None => None,
            },
        }
    }
}

/// The value of a [`Network`].
#[verifier::ext_equal]
pub struct NetState {
    pub sockets: Map<SocketHandle, SocketView>,
    /// What belongs to each descriptor that is in use.
    pub entries: Seq<Option<EntryView>>,
    /// How many sockets use each local port.
    pub ports: Map<u16, u16>,
    /// Descriptors that are queued for eventual closure.
    pub queued: Seq<int>,
    /// Sockets that are closing in the background.
    pub closing: Seq<SocketHandle>,
    /// The addresses of the interface, each with the length of its network prefix.
    pub addrs: Seq<(u32, u8)>,
    /// The gateways of the routes of the interface.
    pub gateways: Seq<u32>,
}

/// A UDP socket that has just been created.
pub open spec fn new_udp_socket() -> UdpView {
    UdpView::fresh(SOCKET_BUFFER_SIZE as nat)
}

/// A network with no sockets.
pub open spec fn fresh_network() -> NetState {
    NetState {
        sockets: sockets::no_sockets(),
        entries: Seq::empty(),
        ports: local_ports::no_ports(),
        queued: Seq::empty(),
        closing: Seq::empty(),
        addrs: seq![(INTERFACE_IP_ADDR, INTERFACE_PREFIX_LEN)],
        gateways: seq![GATEWAY_IP_ADDR],
    }
}

impl NetState {
    /// Whether a descriptor is in use.
    pub open spec fn is_live(self, i: int) -> bool {
        0 <= i < self.entries.len() && self.entries[i] is Some
    }

    /// What belongs to a descriptor.
    pub open spec fn entry(self, i: int) -> EntryView {
        self.entries[i]->Some_0
    }

    /// Whether a descriptor is a TCP socket.
    pub open spec fn is_tcp_fd(self, i: int) -> bool {
        self.is_live(i) && self.entry(i).specific is Tcp
    }

    /// Whether a descriptor is a UDP socket.
    pub open spec fn is_udp_fd(self, i: int) -> bool {
        self.is_live(i) && self.entry(i).specific is Udp
    }

    /// The TCP-specific data of a descriptor.
    pub open spec fn tcp(self, i: int) -> TcpSpecificView {
        self.entry(i).specific->Tcp_0
    }

    /// The TCP socket of a descriptor.
    pub open spec fn tcp_socket(self, i: int) -> TcpView {
        tcp_at(self.sockets, self.entry(i).handle)
    }

    /// The UDP socket of a descriptor.
    pub open spec fn udp_socket(self, i: int) -> UdpView {
        udp_at(self.sockets, self.entry(i).handle)
    }

    /// The network with the entry of a descriptor replaced.
    pub open spec fn with_entry(self, i: int, e: EntryView) -> NetState {
        NetState { entries: self.entries.update(i, Some(e)), ..self }
    }

    /// The network with the TCP-specific data of a descriptor replaced.
    pub open spec fn with_tcp_specific(self, i: int, t: TcpSpecificView) -> NetState {
        self.with_entry(i, EntryView { specific: SpecificView::Tcp(t), ..self.entry(i) })
    }

    /// The network with the proxy of a descriptor replaced.
    pub open spec fn with_proxy(self, i: int, proxy: Option<ProxyView>) -> NetState {
        self.with_entry(i, EntryView { proxy, ..self.entry(i) })
    }

    /// The network with the proxy of a descriptor, if it has one, in another state.
    pub open spec fn with_proxy_state(self, i: int, state: SocketState) -> NetState {
        match self.entry(i).proxy {
            Some(p) => self.with_proxy(i, Some(p.in_state(state))),
            None => self,
        }
    }

    /// The network with the proxy of a descriptor, if it has one, having an error to report.
    pub open spec fn with_proxy_error(self, i: int, error: SocketAsyncError) -> NetState {
        match self.entry(i).proxy {
            Some(p) => self.with_proxy(i, Some(p.with_error(Some(error)))),
            None => self,
        }
    }

    /// The network with the proxy of a descriptor, if it has one, readable or not.
    pub open spec fn with_proxy_readable(self, i: int, readable: bool) -> NetState {
        match self.entry(i).proxy {
            Some(p) => self.with_proxy(i, Some(p.set_readable(readable))),
            None => self,
        }
    }

    /// The network with the TCP socket of a descriptor replaced.
    pub open spec fn with_tcp_socket(self, i: int, v: TcpView) -> NetState {
        NetState { sockets: with_tcp(self.sockets, self.entry(i).handle, v), ..self }
    }

    /// The network with the UDP socket of a descriptor replaced.
    pub open spec fn with_udp_socket(self, i: int, v: UdpView) -> NetState {
        NetState { sockets: with_udp(self.sockets, self.entry(i).handle, v), ..self }
    }

    /// The network with a new descriptor.
    pub open spec fn with_new(self, e: EntryView) -> NetState {
        NetState { entries: self.entries.push(Some(e)), ..self }
    }
}

/// What a socket is for.
pub enum SocketOwner {
    /// It is the socket of a descriptor.
    Descriptor(int),
    /// It is in the backlog of a descriptor.
    Backlog(int),
    /// It is closing in the background.
    Closing,
}

/// Whether a socket is there, and there for this owner only.
pub open spec fn is_owned(
    sockets: Map<SocketHandle, SocketView>,
    owners: Map<SocketHandle, SocketOwner>,
    h: SocketHandle,
    owner: SocketOwner,
) -> bool {
    sockets.contains_key(h) && owners.contains_key(h) && owners[h] == owner
}

/// Whether the sockets of an entry are there.
pub open spec fn is_valid_entry(
    sockets: Map<SocketHandle, SocketView>,
    owners: Map<SocketHandle, SocketOwner>,
    i: int,
    e: EntryView,
) -> bool {
    &&& is_owned(sockets, owners, e.handle, SocketOwner::Descriptor(i))
    &&& match e.specific {
        SpecificView::Tcp(t) => {
            &&& sockets[e.handle] is Tcp
            &&& t.connect_initiated_at is Some ==> t.connect_initiated_at->Some_0 >= 0
            &&& t.server is Some ==> {
                let handles = t.server->Some_0.handles;
                &&& t.server->Some_0.backlog is Some ==> t.server->Some_0.endpoint.port != 0
                &&& handles.no_duplicates()
                &&& forall|k: int|
                    0 <= k < handles.len() ==> is_tcp(sockets, #[trigger] handles[k]) && is_owned(
                        sockets,
                        owners,
                        handles[k],
                        SocketOwner::Backlog(i),
                    )
            }
        },
        SpecificView::Udp(_) => sockets[e.handle] is Udp,
    }
}

/// Whether an entry uses a local port: 1 if it does, else 0.
pub open spec fn uses_port(
    sockets: Map<SocketHandle, SocketView>,
    e: Option<EntryView>,
    port: u16,
) -> nat {
    match e {
        None => 0,
        Some(e) => match e.specific {
            SpecificView::Tcp(t) => if t.local_port == Some(port) {
                1
            } else {
                0
            },
            SpecificView::Udp(_) => if port != 0 && udp_at(sockets, e.handle).endpoint.port == port {
                1
            } else {
                0
            },
        },
    }
}

/// How many entries use a local port.
pub open spec fn port_users(
    sockets: Map<SocketHandle, SocketView>,
    entries: Seq<Option<EntryView>>,
    port: u16,
) -> nat
    decreases entries.len(),
{
    if entries.len() == 0 {
        0
    } else {
        port_users(sockets, entries.drop_last(), port) + uses_port(sockets, entries.last(), port)
    }
}

/// How often a local port is allocated.
pub open spec fn port_count(ports: Map<u16, u16>, port: u16) -> nat {
    if ports.contains_key(port) {
        ports[port] as nat
    } else {
        0
    }
}

/// Every socket of a descriptor, of a backlog or closing in the background is there, and for one
/// use only. Every local port is allocated at least as often as it is used.
pub open spec fn is_valid_network(st: NetState, owners: Map<SocketHandle, SocketOwner>) -> bool {
    &&& local_ports::are_port_counts(st.ports)
    &&& forall|i: int| #[trigger]
        st.is_live(i) ==> is_valid_entry(st.sockets, owners, i, st.entry(i))
    &&& st.closing.no_duplicates()
    &&& forall|k: int|
        0 <= k < st.closing.len() ==> is_tcp(st.sockets, #[trigger] st.closing[k]) && is_owned(
            st.sockets,
            owners,
            st.closing[k],
            SocketOwner::Closing,
        )
    &&& forall|p: u16| #[trigger]
        port_users(st.sockets, st.entries, p) <= port_count(st.ports, p)
}

proof fn lemma_port_users_update(
    before: Map<SocketHandle, SocketView>,
    after: Map<SocketHandle, SocketView>,
    entries: Seq<Option<EntryView>>,
    i: int,
    e: Option<EntryView>,
    port: u16,
)
    requires
        0 <= i < entries.len(),
        forall|j: int|
            0 <= j < entries.len() && j != i ==> uses_port(after, #[trigger] entries[j], port)
                == uses_port(before, entries[j], port),
    ensures
        port_users(after, entries.update(i, e), port) + uses_port(before, entries[i], port)
            == port_users(before, entries, port) + uses_port(after, e, port),
    decreases entries.len(),
{
    let changed = entries.update(i, e);
    if i == entries.len() - 1 {
        assert(changed.drop_last() =~= entries.drop_last());
        lemma_port_users_same(before, after, entries.drop_last(), port);
    } else {
        assert(changed.drop_last() =~= entries.drop_last().update(i, e));
        assert(entries[entries.len() - 1] == entries.last());
        assert forall|j: int| 0 <= j < entries.drop_last().len() && j != i implies uses_port(
            after,
            #[trigger] entries.drop_last()[j],
            port,
        ) == uses_port(before, entries.drop_last()[j], port) by {
            assert(entries.drop_last()[j] == entries[j]);
        }
        lemma_port_users_update(before, after, entries.drop_last(), i, e, port);
    }
}

proof fn lemma_port_users_same(
    before: Map<SocketHandle, SocketView>,
    after: Map<SocketHandle, SocketView>,
    entries: Seq<Option<EntryView>>,
    port: u16,
)
    requires
        forall|j: int|
            0 <= j < entries.len() ==> uses_port(after, #[trigger] entries[j], port) == uses_port(
                before,
                entries[j],
                port,
            ),
    ensures
        port_users(after, entries, port) == port_users(before, entries, port),
    decreases entries.len(),
{
    if entries.len() > 0 {
        assert(entries[entries.len() - 1] == entries.last());
        assert forall|j: int| 0 <= j < entries.drop_last().len() implies uses_port(
            after,
            #[trigger] entries.drop_last()[j],
            port,
        ) == uses_port(before, entries.drop_last()[j], port) by {
            assert(entries.drop_last()[j] == entries[j]);
        }
        lemma_port_users_same(before, after, entries.drop_last(), port);
    }
}

/// Some entry uses a port, so it is allocated.
proof fn lemma_used_port_is_allocated(
    sockets: Map<SocketHandle, SocketView>,
    entries: Seq<Option<EntryView>>,
    i: int,
    port: u16,
)
    requires
        0 <= i < entries.len(),
        uses_port(sockets, entries[i], port) == 1,
    ensures
        port_users(sockets, entries, port) >= 1,
    decreases entries.len(),
{
    if i < entries.len() - 1 {
        assert(entries.drop_last()[i] == entries[i]);
        lemma_used_port_is_allocated(sockets, entries.drop_last(), i, port);
    }
}

/// Whether a change of one entry keeps the sockets of the others.
spec fn keeps_others(
    before: Map<SocketHandle, SocketView>,
    after: Map<SocketHandle, SocketView>,
    owners: Map<SocketHandle, SocketOwner>,
    i: int,
) -> bool {
    forall|h: SocketHandle|
        before.contains_key(h) && owners.contains_key(h) && owners[h] != SocketOwner::Descriptor(i)
            && owners[h] != SocketOwner::Backlog(i) ==> #[trigger] after.contains_key(h) && after[h]
            == before[h]
}

/// Whether owners agree but for one entry.
spec fn keeps_other_owners(
    before: Map<SocketHandle, SocketOwner>,
    after: Map<SocketHandle, SocketOwner>,
    i: int,
) -> bool {
    forall|h: SocketHandle|
        #![trigger after.contains_key(h)]
        #![trigger before.contains_key(h)]
        before.contains_key(h) && before[h] != SocketOwner::Descriptor(i) && before[h]
            != SocketOwner::Backlog(i) ==> after.contains_key(h) && after[h] == before[h]
}

/// A change of one descriptor keeps the network valid, where the descriptor stays valid and its
/// local ports are accounted for.
proof fn lemma_change_one(
    st: NetState,
    owners: Map<SocketHandle, SocketOwner>,
    st2: NetState,
    owners2: Map<SocketHandle, SocketOwner>,
    i: int,
)
    requires
        is_valid_network(st, owners),
        0 <= i < st.entries.len(),
        st2.entries =~= st.entries.update(i, st2.entries[i]),
        st2.closing == st.closing,
        keeps_others(st.sockets, st2.sockets, owners, i),
        keeps_other_owners(owners, owners2, i),
        st2.is_live(i) ==> is_valid_entry(st2.sockets, owners2, i, st2.entry(i)),
        local_ports::are_port_counts(st2.ports),
        forall|p: u16|
            #![trigger port_count(st2.ports, p)]
            port_count(st2.ports, p) + uses_port(st.sockets, st.entries[i], p) >= port_count(
                st.ports,
                p,
            ) + uses_port(st2.sockets, st2.entries[i], p),
    ensures
        is_valid_network(st2, owners2),
{
    assert forall|j: int| 0 <= j < st.entries.len() && j != i implies #[trigger] st2.entries[j]
        == st.entries[j] by {}
    assert forall|j: int| #[trigger] st2.is_live(j) implies is_valid_entry(
        st2.sockets,
        owners2,
        j,
        st2.entry(j),
    ) by {
        if j != i {
            assert(st.is_live(j) && st.entry(j) == st2.entry(j));
            let e = st.entry(j);
            assert(is_valid_entry(st.sockets, owners, j, e));
            assert(owners2.contains_key(e.handle) && st2.sockets.contains_key(e.handle));
            if e.specific is Tcp && e.specific->Tcp_0.server is Some {
                let handles = e.specific->Tcp_0.server->Some_0.handles;
                assert forall|k: int| 0 <= k < handles.len() implies is_tcp(
                    st2.sockets,
                    #[trigger] handles[k],
                ) && is_owned(st2.sockets, owners2, handles[k], SocketOwner::Backlog(j)) by {
                    assert(is_tcp(st.sockets, handles[k]));
                    assert(owners2.contains_key(handles[k]) && st2.sockets.contains_key(
                        handles[k],
                    ));
                }
            }
        }
    }
    assert forall|k: int| 0 <= k < st2.closing.len() implies is_tcp(
        st2.sockets,
        #[trigger] st2.closing[k],
    ) && is_owned(st2.sockets, owners2, st2.closing[k], SocketOwner::Closing) by {
        let h = st.closing[k];
        assert(is_tcp(st.sockets, h));
        assert(owners2.contains_key(h) && st2.sockets.contains_key(h));
    }
    assert forall|p: u16| #[trigger] port_users(st2.sockets, st2.entries, p) <= port_count(
        st2.ports,
        p,
    ) by {
        assert forall|j: int| 0 <= j < st.entries.len() && j != i implies uses_port(
            st2.sockets,
            #[trigger] st.entries[j],
            p,
        ) == uses_port(st.sockets, st.entries[j], p) by {
            if st.is_live(j) {
                let h = st.entry(j).handle;
                assert(owners.contains_key(h) && owners[h] == SocketOwner::Descriptor(j));
                assert(st2.sockets.contains_key(h));
            }
        }
        lemma_port_users_update(st.sockets, st2.sockets, st.entries, i, st2.entries[i], p);
        assert(port_users(st.sockets, st.entries, p) <= port_count(st.ports, p));
        assert(port_count(st2.ports, p) + uses_port(st.sockets, st.entries[i], p) >= port_count(
            st.ports,
            p,
        ) + uses_port(st2.sockets, st2.entries[i], p));
    }
}

/// A new descriptor keeps the network valid.
proof fn lemma_add_one(
    st: NetState,
    owners: Map<SocketHandle, SocketOwner>,
    st2: NetState,
    owners2: Map<SocketHandle, SocketOwner>,
)
    requires
        is_valid_network(st, owners),
        st2.entries.len() == st.entries.len() + 1,
        st2.entries.drop_last() =~= st.entries,
        st2.entries.last() is Some,
        st2.closing == st.closing,
        forall|h: SocketHandle| #[trigger]
            st.sockets.contains_key(h) && owners.contains_key(h) ==> st2.sockets.contains_key(h)
                && st2.sockets[h] == st.sockets[h] && owners2.contains_key(h) && (owners2[h]
                == owners[h] || owners2[h] == SocketOwner::Descriptor(st.entries.len() as int)),
        forall|h: SocketHandle| #[trigger]
            owners2.contains_key(h) && owners2[h] == SocketOwner::Descriptor(
                st.entries.len() as int,
            ) ==> !used_by(st, h),
        is_valid_entry(
            st2.sockets,
            owners2,
            st.entries.len() as int,
            st2.entries.last()->Some_0,
        ),
        local_ports::are_port_counts(st2.ports),
        forall|p: u16|
            #![trigger port_count(st2.ports, p)]
            port_count(st2.ports, p) >= port_count(st.ports, p) + uses_port(
                st2.sockets,
                st2.entries.last(),
                p,
            ),
    ensures
        is_valid_network(st2, owners2),
{
    let n = st.entries.len() as int;
    assert forall|j: int| 0 <= j < n implies #[trigger] st2.entries[j] == st.entries[j] by {
        assert(st2.entries.drop_last()[j] == st.entries[j]);
    }
    assert forall|j: int| #[trigger] st2.is_live(j) implies is_valid_entry(
        st2.sockets,
        owners2,
        j,
        st2.entry(j),
    ) by {
        if j < n {
            assert(st.is_live(j) && st.entry(j) == st2.entry(j));
            let e = st.entry(j);
            assert(is_valid_entry(st.sockets, owners, j, e));
            assert(used_by(st, e.handle));
            assert(st.sockets.contains_key(e.handle));
            assert(owners2.contains_key(e.handle));
            if e.specific is Tcp && e.specific->Tcp_0.server is Some {
                let handles = e.specific->Tcp_0.server->Some_0.handles;
                assert forall|k: int| 0 <= k < handles.len() implies is_tcp(
                    st2.sockets,
                    #[trigger] handles[k],
                ) && is_owned(st2.sockets, owners2, handles[k], SocketOwner::Backlog(j)) by {
                    assert(is_tcp(st.sockets, handles[k]));
                    assert(used_by(st, handles[k])) by {
                        assert(st.is_live(j) && in_backlog(st, j, handles[k]));
                    }
                    assert(st.sockets.contains_key(handles[k]));
                    assert(owners2.contains_key(handles[k]));
                }
            }
        }
    }
    assert forall|k: int| 0 <= k < st2.closing.len() implies is_tcp(
        st2.sockets,
        #[trigger] st2.closing[k],
    ) && is_owned(st2.sockets, owners2, st2.closing[k], SocketOwner::Closing) by {
        let h = st.closing[k];
        assert(is_tcp(st.sockets, h));
        assert(used_by(st, h));
        assert(st.sockets.contains_key(h) && owners2.contains_key(h));
    }
    assert forall|p: u16| #[trigger] port_users(st2.sockets, st2.entries, p) <= port_count(
        st2.ports,
        p,
    ) by {
        assert forall|j: int| 0 <= j < st.entries.len() implies uses_port(
            st2.sockets,
            #[trigger] st.entries[j],
            p,
        ) == uses_port(st.sockets, st.entries[j], p) by {
            if st.is_live(j) {
                assert(st.sockets.contains_key(st.entry(j).handle));
            }
        }
        lemma_port_users_same(st.sockets, st2.sockets, st.entries, p);
        assert(port_users(st.sockets, st.entries, p) <= port_count(st.ports, p));
        assert(port_count(st2.ports, p) >= port_count(st.ports, p) + uses_port(
            st2.sockets,
            st2.entries.last(),
            p,
        ));
    }
}

/// Whether a socket is in the backlog of a descriptor.
spec fn in_backlog(st: NetState, i: int, h: SocketHandle) -> bool {
    st.is_tcp_fd(i) && st.tcp(i).server is Some && st.tcp(i).server->Some_0.handles.contains(h)
}

/// Whether anything in the network leads to a socket.
spec fn used_by(st: NetState, h: SocketHandle) -> bool {
    ||| exists|i: int| #[trigger] st.is_live(i) && st.entry(i).handle == h
    ||| exists|i: int| #[trigger] st.is_live(i) && in_backlog(st, i, h)
    ||| st.closing.contains(h)
}

/// The number of microseconds between two points in time.
pub open spec fn elapsed(now: i64, then: i64) -> nat {
    if now >= then {
        (now - then) as nat
    } else {
        (then - now) as nat
    }
}

/// Whether a connection attempt that was started at `at` has taken too long.
pub open spec fn is_timed_out(at: Option<i64>, now: i64) -> bool {
    at is Some && elapsed(now, at->Some_0) >= TCP_CONNECT_TIMEOUT
}

fn has_timed_out(at: Option<i64>, now: i64) -> (r: bool)
    requires
        now >= 0,
        at is Some ==> at->Some_0 >= 0,
    ensures
        r == is_timed_out(at, now),
{
    match at {
        Some(then) => {
            let gap: i64 = if now >= then {
                now - then
            } else {
                then - now
            };
            gap as u64 >= TCP_CONNECT_TIMEOUT
        },
        None => false,
    }
}

/// Whether `port` is what allocating `asked` may give.
pub open spec fn may_get_port(ports: Map<u16, u16>, asked: u16, port: u16) -> bool {
    &&& port != 0
    &&& !ports.contains_key(port)
    &&& if asked == 0 {
        port >= local_ports::FIRST_EPHEMERAL_PORT
    } else {
        port == asked
    }
}

/// A new TCP socket.
pub open spec fn new_tcp_socket() -> TcpView {
    TcpView::fresh(SOCKET_BUFFER_SIZE as nat)
}

/// The number of the next descriptor.
pub open spec fn next_descriptor(st: NetState) -> int {
    st.entries.len() as int
}

/// What creating a socket does.
pub open spec fn creates_socket(
    st: NetState,
    protocol: Protocol,
    after: NetState,
    r: Result<SocketFd, SocketError>,
) -> bool {
    match protocol {
        Protocol::Raw { protocol } => r is Err && r->Err_0 == SocketError::UnsupportedProtocol(
            protocol,
        ) && after == st,
        Protocol::Tcp => {
            &&& r is Ok
            &&& r->Ok_0.number() == st.entries.len()
            &&& exists|h: SocketHandle|
                !st.sockets.contains_key(h) && after == (NetState {
                    sockets: #[trigger] with_tcp(
                        st.sockets,
                        h,
                        new_tcp_socket(),
                    ),
                    ..st.with_new(fresh_entry(h, SpecificView::Tcp(fresh_tcp())))
                })
        },
        Protocol::Udp => {
            &&& r is Ok
            &&& r->Ok_0.number() == st.entries.len()
            &&& exists|h: SocketHandle|
                !st.sockets.contains_key(h) && after == (NetState {
                    sockets: #[trigger] with_udp(st.sockets, h, new_udp_socket()),
                    ..st.with_new(fresh_entry(h, SpecificView::Udp(None)))
                })
        },
        Protocol::Icmp => false,
    }
}

/// What the state of a connecting socket is reported as, to the caller and to the proxy.
pub open spec fn progress_result(
    st: NetState,
    i: int,
    state: TcpState,
    now: i64,
) -> (NetState, Result<(), ConnectError>) {
    if state is Established {
        (st.with_proxy_state(i, SocketState::Connected), Ok(()))
    } else if state is SynSent {
        (st.with_proxy_state(i, SocketState::Connecting), Err(ConnectError::InProgress))
    } else if st.entry(i).proxy is Some && is_timed_out(st.tcp(i).connect_initiated_at, now) {
        (st.with_proxy_error(i, SocketAsyncError::TimedOut), Err(ConnectError::TimedOut))
    } else {
        (
            st.with_proxy_error(i, SocketAsyncError::ConnectionRefused),
            Err(ConnectError::InvalidState),
        )
    }
}

/// The network after a TCP socket has started to connect from a local port.
pub open spec fn tcp_connecting(
    st: NetState,
    i: int,
    ip: u32,
    port: u16,
    remote: SocketAddrV4,
    now: i64,
) -> NetState {
    let socket = st.tcp_socket(i).connecting(SocketAddrV4 { ip, port }, remote);
    let begun = st.with_tcp_socket(
        i,
        TcpView { timeout: Some(TCP_CONNECT_TIMEOUT), ..socket },
    ).with_tcp_specific(
        i,
        TcpSpecificView {
            local_port: Some(port),
            connect_initiated_at: Some(now),
            ..st.tcp(i)
        },
    );
    NetState { ports: st.ports.insert(port, 1), ..begun }
}

/// The network after a UDP socket has been given a default destination, being bound first to a
/// local port if it is not bound.
pub open spec fn udp_connected(st: NetState, i: int, remote: SocketAddrV4) -> NetState {
    st.with_entry(i, EntryView { specific: SpecificView::Udp(Some(remote)), ..st.entry(i) })
}

/// The network after an unbound UDP socket has been bound.
pub open spec fn udp_bound(st: NetState, i: int, endpoint: ListenEndpoint) -> NetState {
    NetState {
        ports: st.ports.insert(endpoint.port, 1),
        ..st.with_udp_socket(i, UdpView { endpoint, ..st.udp_socket(i) })
    }
}

/// What beginning to connect a TCP socket does, where there is a local port for it.
pub open spec fn begins_to_connect(
    st: NetState,
    i: int,
    remote: SocketAddrV4,
    now: i64,
    after: NetState,
    r: Result<(), ConnectError>,
) -> bool {
    match source_address(st.addrs) {
        Some(ip) if remote.port != 0 && remote.ip != 0 => exists|port: u16| #[trigger]
            may_get_port(st.ports, 0, port) && (after, r) == progress_result(
                tcp_connecting(st, i, ip, port, remote, now),
                i,
                TcpState::SynSent,
                now,
            ),
        _ => {
            &&& after == st.with_proxy_error(i, SocketAsyncError::ConnectionRefused)
            &&& r is Err
            &&& r->Err_0 == ConnectError::Unaddressable
        },
    }
}

/// Whether a descriptor can be connected: where it is a TCP socket and there is a local port for
/// it, it is not open, and not bound either if the address can be connected to. Progress can be
/// asked of a socket that has begun to connect.
pub open spec fn is_connectable(st: NetState, i: int, addr: SocketAddr, check_progress: bool) -> bool {
    addr is V4 && st.is_tcp_fd(i) ==> {
        let state = st.tcp_socket(i).state;
        if check_progress {
            state is Established || state is SynSent || state is Closed || state is TimeWait
        } else {
            can_allocate(st.ports, 0) ==> !state.is_open() && (can_connect_to(
                st,
                addr->V4_0,
            ) ==> st.tcp(i).local_port is None)
        }
    }
}

/// Whether an address can be connected to: it has a host and a port, and the interface has an
/// address to connect from.
pub open spec fn can_connect_to(st: NetState, remote: SocketAddrV4) -> bool {
    source_address(st.addrs) is Some && remote.port != 0 && remote.ip != 0
}

/// Whether a descriptor can be bound: where it is a TCP socket that does not listen, and the port
/// can be had, it has no local port yet.
pub open spec fn is_bindable(st: NetState, i: int, addr: SocketAddr) -> bool {
    addr is V4 && st.is_tcp_fd(i) && st.tcp(i).server is None && can_allocate(
        st.ports,
        addr->V4_0.port,
    ) ==> st.tcp(i).local_port is None
}

/// Whether a descriptor can be made to listen: it is a TCP socket that does not listen yet, with
/// some backlog, and has a local port only if it has been bound.
pub open spec fn can_listen(st: NetState, i: int, backlog: u16) -> bool {
    st.is_live(i) ==> {
        let t = st.tcp(i);
        &&& backlog > 0
        &&& st.is_tcp_fd(i)
        &&& t.server is None && can_allocate(st.ports, 0) ==> t.local_port is None
        &&& t.server is Some && t.server->Some_0.endpoint.port != 0
            ==> t.server->Some_0.backlog is None && t.server->Some_0.handles.len() == 0
    }
}

/// Whether connections of a descriptor can be accepted: it is a TCP socket, and one more socket can
/// use its local port.
pub open spec fn can_accept(st: NetState, i: int) -> bool {
    st.is_live(i) ==> {
        &&& st.is_tcp_fd(i)
        &&& st.tcp(i).local_port is Some ==> port_count(st.ports, st.tcp(i).local_port->Some_0)
            < u16::MAX
    }
}

/// What connecting does, or, for `check_progress`, asking how far it has come.
pub open spec fn connects(
    st: NetState,
    i: int,
    addr: SocketAddr,
    check_progress: bool,
    now: i64,
    after: NetState,
    r: Result<(), ConnectError>,
) -> bool {
    match addr {
        SocketAddr::V6(_) => after == st && r is Err && r->Err_0
            == ConnectError::UnsupportedAddress(addr),
        SocketAddr::V4(remote) => if !st.is_live(i) {
            after == st && r is Err && r->Err_0 == ConnectError::InvalidFd
        } else if st.entry(i).specific is Tcp {
            if check_progress {
                (after, r) == progress_result(st, i, st.tcp_socket(i).state, now)
            } else if !can_allocate(st.ports, 0) {
                after == st && r is Err && r->Err_0 == ConnectError::PortAllocationFailure(
                    LocalPortAllocationError::NoAvailableFreePorts,
                )
            } else {
                begins_to_connect(st, i, remote, now, after, r)
            }
        } else if remote.port == 0 {
            after == st && r is Err && r->Err_0 == ConnectError::Unaddressable
        } else if st.udp_socket(i).endpoint.port != 0 {
            after == udp_connected(st, i, remote).with_proxy_state(i, SocketState::Connected) && r
                == Ok::<(), ConnectError>(())
        } else if !can_allocate(st.ports, 0) {
            after == st && r is Err && r->Err_0 == ConnectError::PortAllocationFailure(
                LocalPortAllocationError::NoAvailableFreePorts,
            )
        } else {
            &&& r == Ok::<(), ConnectError>(())
            &&& exists|port: u16| #[trigger]
                may_get_port(st.ports, 0, port) && after == udp_connected(
                    udp_bound(st, i, ListenEndpoint { addr: None, port }),
                    i,
                    remote,
                ).with_proxy_state(i, SocketState::Connected)
        },
    }
}

/// What binding does.
pub open spec fn binds(
    st: NetState,
    i: int,
    addr: SocketAddr,
    after: NetState,
    r: Result<(), BindError>,
) -> bool {
    match addr {
        SocketAddr::V6(_) => after == st && r is Err && r->Err_0 == BindError::UnsupportedAddress(
            addr,
        ),
        SocketAddr::V4(local) => if !st.is_live(i) {
            after == st && r is Err && r->Err_0 == BindError::InvalidFd
        } else if st.entry(i).specific is Tcp && st.tcp(i).server is Some {
            after == st && r is Err && r->Err_0 == BindError::AlreadyBound
        } else if !can_allocate(st.ports, local.port) {
            after == st && r is Err && r->Err_0 == BindError::PortAlreadyInUse(local.port)
        } else if st.entry(i).specific is Tcp {
            &&& r == Ok::<(), BindError>(())
            &&& exists|port: u16| #[trigger]
                may_get_port(st.ports, local.port, port) && after == tcp_bound(st, i, local.ip, port)
        } else if st.udp_socket(i).endpoint.port != 0 {
            after == st && r is Err && r->Err_0 == BindError::AlreadyBound
        } else {
            &&& r == Ok::<(), BindError>(())
            &&& exists|port: u16| #[trigger]
                may_get_port(st.ports, local.port, port) && after == udp_bound(
                    st,
                    i,
                    ListenEndpoint { addr: Some(local.ip), port },
                )
        },
    }
}

/// The network after a TCP socket has been bound.
pub open spec fn tcp_bound(st: NetState, i: int, ip: u32, port: u16) -> NetState {
    let server = ServerView {
        endpoint: ListenEndpoint { addr: Some(ip), port },
        backlog: None,
        handles: Seq::empty(),
    };
    NetState {
        ports: st.ports.insert(port, 1),
        ..st.with_tcp_specific(
            i,
            TcpSpecificView { local_port: Some(port), server: Some(server), ..st.tcp(i) },
        )
    }
}

/// What setting a TCP option does.
pub open spec fn sets_tcp_option(
    st: NetState,
    i: int,
    data: TcpOptionData,
    after: NetState,
    r: Result<(), SetTcpOptionError>,
) -> bool {
    if !st.is_live(i) {
        after == st && r == Err::<(), SetTcpOptionError>(SetTcpOptionError::InvalidFd)
    } else if st.is_tcp_fd(i) {
        let v = st.tcp_socket(i);
        r == Ok::<(), SetTcpOptionError>(()) && after == match data {
            TcpOptionData::NODELAY(nodelay) => st.with_tcp_socket(
                i,
                TcpView { nagle: !nodelay, ..v },
            ),
            TcpOptionData::KEEPALIVE(keep_alive) => st.with_tcp_socket(
                i,
                TcpView { keep_alive, ..v },
            ),
            TcpOptionData::CONGESTION(_) => st,
        }
    } else {
        after == st && r == Err::<(), SetTcpOptionError>(SetTcpOptionError::NotTcpSocket)
    }
}

/// The value of a TCP option.
pub open spec fn tcp_option(st: NetState, i: int, name: TcpOptionName) -> Result<
    TcpOptionData,
    GetTcpOptionError,
> {
    if !st.is_live(i) {
        Err(GetTcpOptionError::InvalidFd)
    } else if st.is_tcp_fd(i) {
        let v = st.tcp_socket(i);
        Ok(
            match name {
                TcpOptionName::NODELAY => TcpOptionData::NODELAY(!v.nagle),
                TcpOptionName::KEEPALIVE => TcpOptionData::KEEPALIVE(v.keep_alive),
                TcpOptionName::CONGESTION => TcpOptionData::CONGESTION(
                    CongestionControl::NoControl,
                ),
            },
        )
    } else {
        Err(GetTcpOptionError::NotTcpSocket)
    }
}

/// The remote address of a descriptor.
pub open spec fn remote_addr(st: NetState, i: int) -> Result<SocketAddr, RemoteAddrError> {
    let remote = match st.entry(i).specific {
        SpecificView::Tcp(_) => match st.tcp_socket(i).ends {
            Some((_, remote)) => Some(remote),
            None => None,
        },
        SpecificView::Udp(remote) => remote,
    };
    match remote {
        Some(remote) => Ok(SocketAddr::V4(remote)),
        None => Err(RemoteAddrError::NotConnected),
    }
}

/// The local address of a descriptor.
pub open spec fn local_addr(st: NetState, i: int) -> SocketAddr {
    match st.entry(i).specific {
        SpecificView::Tcp(_) => match st.tcp_socket(i).ends {
            Some((local, _)) => SocketAddr::V4(local),
            None => SocketAddr::V4(SocketAddrV4 { ip: 0, port: 0 }),
        },
        SpecificView::Udp(_) => {
            let end = st.udp_socket(i).endpoint;
            SocketAddr::V4(
                SocketAddrV4 {
                    ip: match end.addr {
                        Some(ip) => ip,
                        None => 0,
                    },
                    port: end.port,
                },
            )
        },
    }
}

/// What sending does.
pub open spec fn sends(
    st: NetState,
    i: int,
    data: Seq<u8>,
    destination: Option<SocketAddr>,
    after: NetState,
    r: Result<usize, SendError>,
) -> bool {
    if !st.is_live(i) {
        after == st && r is Err && r->Err_0 == SendError::InvalidFd
    } else {
        match st.entry(i).specific {
            SpecificView::Tcp(_) => if destination is Some {
                after == st && r is Err && r->Err_0 == SendError::UnnecessaryDestinationAddress
            } else {
                let sent = match r {
                    Ok(n) => Some(n),
                    Err(_) => None,
                };
                &&& r is Err ==> r->Err_0 == SendError::SocketInInvalidState
                &&& tcp_sends(st.sockets, st.entry(i).handle, data, after.sockets, sent)
                &&& after == (NetState { sockets: after.sockets, ..st })
            },
            SpecificView::Udp(default) => {
                let to = match destination {
                    Some(SocketAddr::V4(to)) => Some(to),
                    _ => default,
                };
                if to is None {
                    after == st && r is Err && r->Err_0 == SendError::DestinationAddressRequired
                } else if st.udp_socket(i).endpoint.port != 0 {
                    sends_datagram(st, i, data, to->Some_0, after, r)
                } else if !can_allocate(st.ports, 0) {
                    after == st && r is Err && r->Err_0 == SendError::PortAllocationFailure(
                        LocalPortAllocationError::NoAvailableFreePorts,
                    )
                } else {
                    exists|port: u16| #[trigger]
                        may_get_port(st.ports, 0, port) && sends_datagram(
                            udp_bound(st, i, ListenEndpoint { addr: None, port }),
                            i,
                            data,
                            to->Some_0,
                            after,
                            r,
                        )
                }
            },
        }
    }
}

/// What sending a datagram from a bound socket does.
pub open spec fn sends_datagram(
    st: NetState,
    i: int,
    data: Seq<u8>,
    to: SocketAddrV4,
    after: NetState,
    r: Result<usize, SendError>,
) -> bool {
    &&& match r {
        Ok(n) => n == data.len() && udp_sends(
            st.sockets,
            st.entry(i).handle,
            data,
            to,
            after.sockets,
            Ok(()),
        ),
        Err(SendError::BufferFull) => udp_sends(
            st.sockets,
            st.entry(i).handle,
            data,
            to,
            after.sockets,
            Err(UdpSendError::BufferFull),
        ),
        Err(SendError::Unaddressable) => udp_sends(
            st.sockets,
            st.entry(i).handle,
            data,
            to,
            after.sockets,
            Err(UdpSendError::Unaddressable),
        ),
        Err(_) => false,
    }
    &&& after == (NetState { sockets: after.sockets, ..st })
}

/// What receiving does to the network and to the buffer.
pub open spec fn receives(
    st: NetState,
    i: int,
    first_piece: nat,
    buf: Seq<u8>,
    flags: ReceiveFlags,
    after: NetState,
    buf_after: Seq<u8>,
    r: Result<usize, ReceiveError>,
) -> bool {
    if !st.is_live(i) {
        &&& after == st
        &&& buf_after == buf
        &&& r is Err
        &&& r->Err_0 == ReceiveError::InvalidFd
    } else {
        match st.entry(i).specific {
            SpecificView::Tcp(_) => {
                let v = st.tcp_socket(i);
                if flags.has(ReceiveFlags::DISCARD) {
                    &&& after == st.with_tcp_socket(i, TcpView { rx: Seq::empty(), ..v })
                    &&& buf_after == buf
                    &&& r == reported(discarded(v, first_piece))
                } else if v.may_recv() {
                    let n = smaller(buf.len(), v.rx.len()) as int;
                    &&& r == Ok::<usize, ReceiveError>(n as usize)
                    &&& after == st.with_tcp_socket(i, TcpView { rx: v.rx.skip(n), ..v })
                    &&& buf_after == v.rx.take(n) + buf.skip(n)
                } else {
                    &&& r == Err::<usize, ReceiveError>(receive_error(recv_error(v)))
                    &&& after == st
                    &&& buf_after == buf
                }
            },
            SpecificView::Udp(_) => {
                let v = st.udp_socket(i);
                if v.rx.len() == 0 {
                    r == Ok::<usize, ReceiveError>(0) && after == st && buf_after == buf
                } else {
                    let data = v.rx[0].data;
                    let n = if flags.has(ReceiveFlags::DISCARD) {
                        0
                    } else {
                        smaller(buf.len(), data.len()) as int
                    };
                    &&& after == st.with_udp_socket(i, UdpView { rx: v.rx.skip(1), ..v })
                    &&& buf_after == data.take(n) + buf.skip(n)
                    &&& r is Ok
                    &&& r->Ok_0 == if flags.has(ReceiveFlags::DISCARD) || flags.has(
                        ReceiveFlags::TRUNC,
                    ) {
                        data.len() as int
                    } else {
                        n
                    }
                }
            },
        }
    }
}

/// The source address that receiving reports, if it does.
pub open spec fn received_from(
    st: NetState,
    i: int,
    before: Option<SocketAddr>,
) -> Option<SocketAddr> {
    if !st.is_live(i) {
        before
    } else if st.entry(i).specific is Tcp {
        None
    } else if st.udp_socket(i).rx.len() > 0 {
        Some(SocketAddr::V4(st.udp_socket(i).rx[0].addr))
    } else {
        before
    }
}

/// What discarding everything that a TCP socket has received results in. It takes a second look,
/// which finds an error if nothing more can be received, and the first look has found all there was:
/// that is so if it lay in one piece.
pub open spec fn discarded(v: TcpView, first_piece: nat) -> Result<usize, TcpRecvError> {
    let rest = TcpView { rx: Seq::empty(), ..v };
    if rest.may_recv() || first_piece < v.rx.len() {
        Ok(v.rx.len() as usize)
    } else {
        Err(recv_error(v))
    }
}

/// What is reported of receiving from a TCP socket.
pub open spec fn reported(r: Result<usize, TcpRecvError>) -> Result<usize, ReceiveError> {
    match r {
        Ok(n) => Ok(n),
        Err(e) => Err(receive_error(e)),
    }
}

/// The error reported for an error of a TCP socket.
pub open spec fn receive_error(e: TcpRecvError) -> ReceiveError {
    match e {
        TcpRecvError::InvalidState => ReceiveError::SocketInInvalidState,
        TcpRecvError::Finished => ReceiveError::OperationFinished,
    }
}

fn report_receive_error(e: TcpRecvError) -> (r: ReceiveError)
    ensures
        r == receive_error(e),
{
    match e {
        TcpRecvError::InvalidState => ReceiveError::SocketInInvalidState,
        TcpRecvError::Finished => ReceiveError::OperationFinished,
    }
}

/// The `Network` provides access to all networking related functionality.
///
/// The interface and the sockets are driven from outside, by polling the interface with a device;
/// doing so neither adds nor removes sockets, and binds none.
pub struct Network {
    /// The set of sockets
    pub socket_set: SocketSet<'static>,
    /// The network interface
    pub interface: Interface,
    entries: Vec<Option<SocketEntry>>,
    /// An allocator for local ports
    local_port_allocator: LocalPortAllocator,
    /// Whether outside interaction is automatic or manual
    platform_interaction: PlatformInteraction,
    /// Descriptors that are queued for eventual closure
    queued_for_closure: Vec<SocketFd>,
    /// Sockets that are closing in the background
    closing_in_background: Vec<SocketHandle>,
    owners: Ghost<Map<SocketHandle, SocketOwner>>,
}

spec fn entry_view(e: Option<SocketEntry>) -> Option<EntryView> {
    match e {
        Some(e) => Some(e@),
        None => None,
    }
}

spec fn has_valid_proxy(e: Option<SocketEntry>) -> bool {
    match e {
        Some(e) => match e.proxy {
            Some(p) => p.wf(),
            None => true,
        },
        None => true,
    }
}

impl Network {
    /// The value of the network.
    pub closed spec fn state(&self) -> NetState {
        NetState {
            sockets: sockets_of(self.socket_set),
            entries: self.entries@.map_values(|e: Option<SocketEntry>| entry_view(e)),
            ports: self.local_port_allocator@,
            queued: numbers(self.queued_for_closure@),
            closing: self.closing_in_background@,
            addrs: sockets::interface_addrs(self.interface),
            gateways: sockets::interface_routes(self.interface),
        }
    }

    /// How many of the received bytes of a TCP socket lie in one piece, from the eldest one on.
    pub closed spec fn first_piece(&self, i: int) -> nat {
        sockets::first_piece(self.socket_set, self.state().entry(i).handle)
    }

    /// How the network interacts with the platform.
    pub closed spec fn interaction(&self) -> PlatformInteraction {
        self.platform_interaction
    }

    /// The network is in order: see [`is_valid_network`]. No socket has too long a timeout.
    pub closed spec fn wf(&self) -> bool {
        &&& is_valid_network(self.state(), self.owners@)
        &&& sockets::have_bounded_timeouts(self.state().sockets)
        &&& forall|i: int| 0 <= i < self.entries@.len() ==> has_valid_proxy(#[trigger] self.entries@[i])
    }

    /// A network with no sockets, over an interface that has neither addresses nor routes yet. It is
    /// given both.
    pub fn new(interface: Interface) -> (r: Self)
        requires
            sockets::interface_addrs(interface).len() == 0,
            sockets::interface_routes(interface).len() == 0,
        ensures
            r.wf(),
            r.interaction() == PlatformInteraction::Automatic,
            r.state() == fresh_network(),
    {
        let mut interface = interface;
        sockets::add_address(&mut interface, INTERFACE_IP_ADDR, INTERFACE_PREFIX_LEN);
        sockets::add_default_route(&mut interface, GATEWAY_IP_ADDR);
        let r = Network {
            socket_set: sockets::new_set(),
            interface,
            entries: Vec::new(),
            local_port_allocator: LocalPortAllocator::new(),
            platform_interaction: PlatformInteraction::Automatic,
            queued_for_closure: Vec::new(),
            closing_in_background: Vec::new(),
            owners: Ghost(Map::empty()),
        };
        assert(r.state() =~= fresh_network());
        assert forall|p: u16| #[trigger]
            port_users(r.state().sockets, r.state().entries, p) <= port_count(r.state().ports, p) by {
            assert(port_users(r.state().sockets, r.state().entries, p) == 0);
        }
        r
    }

    /// A network with no sockets, over an interface, unless that has addresses or routes already.
    pub fn try_new(interface: Interface) -> (r: Option<Self>)
        ensures
            r is Some <==> sockets::interface_addrs(interface).len() == 0
                && sockets::interface_routes(interface).len() == 0,
            r is Some ==> r->Some_0.wf() && r->Some_0.interaction()
                == PlatformInteraction::Automatic && r->Some_0.state() == fresh_network(),
    {
        let mut interface = interface;
        if sockets::address_count(&interface) != 0 || sockets::route_count(&mut interface) != 0 {
            return None;
        }
        Some(Self::new(interface))
    }

    /// Sets the interaction with the outside world to `platform_interaction`.
    pub fn set_platform_interaction(&mut self, platform_interaction: PlatformInteraction)
        requires
            old(self).wf(),
        ensures
            final(self).wf(),
            final(self).state() == old(self).state(),
            final(self).interaction() == platform_interaction,
    {
        self.platform_interaction = platform_interaction;
    }

    /// How the network interacts with the platform.
    pub fn platform_interaction(&self) -> (r: PlatformInteraction)
        ensures
            r == self.interaction(),
    {
        self.platform_interaction
    }

    /// Whether a descriptor is in use.
    pub fn is_open(&self, fd: &SocketFd) -> (r: bool)
        ensures
            r == self.state().is_live(fd.number()),
    {
        fd.index < self.entries.len() && self.entries[fd.index].is_some()
    }

    /// Creates a socket. ICMP sockets cannot be created yet.
    ///
    /// By default, the created socket has no associated proxy; to set a proxy, use
    /// [`set_socket_proxy`](Self::set_socket_proxy).
    pub fn socket(&mut self, protocol: Protocol) -> (r: Result<SocketFd, SocketError>)
        requires
            old(self).wf(),
            !(protocol is Icmp),
        ensures
            final(self).wf(),
            final(self).interaction() == old(self).interaction(),
            creates_socket(old(self).state(), protocol, final(self).state(), r),
    {
        let ghost st = self.state();
        let ghost owners = self.owners@;
        let (handle, specific) = match protocol {
            Protocol::Tcp => (
                sockets::add_tcp(&mut self.socket_set, SOCKET_BUFFER_SIZE),
                ProtocolSpecific::Tcp(
                    TcpSpecific {
                        local_port: None,
                        server_socket: None,
                        immediate_close: false,
                        connect_initiated_at_us: None,
                    },
                ),
            ),
            Protocol::Raw { protocol } => {
                return Err(SocketError::UnsupportedProtocol(protocol));
            },
            _ => (
                sockets::add_udp(&mut self.socket_set, MAX_PACKET_COUNT, SOCKET_BUFFER_SIZE),
                ProtocolSpecific::Udp(UdpSpecific { remote_endpoint: None }),
            ),
        };
        let ghost mid = NetState { sockets: sockets_of(self.socket_set), ..st };
        assert(self.state() =~= mid);
        let ghost view = specific@;
        let fd = self.new_socket_fd_for(
            SocketEntry { consider_closed: false, handle, specific, proxy: None },
        );
        proof {
            let e = fresh_entry(handle, view);
            assert(self.state() =~= mid.with_new(e));
            let n = next_descriptor(st);
            self.owners@ = owners.insert(handle, SocketOwner::Descriptor(n));
            lemma_used_is_there(st, owners, handle);
            assert(self.state().entries.drop_last() =~= st.entries);
            assert forall|h: SocketHandle| #[trigger]
                self.owners@.contains_key(h) && self.owners@[h] == SocketOwner::Descriptor(
                    n,
                ) implies !used_by(st, h) by {
                if used_by(st, h) {
                    lemma_used_is_there(st, owners, h);
                }
            }
            lemma_add_one(st, owners, self.state(), self.owners@);
            if protocol is Tcp {
                assert(view == SpecificView::Tcp(fresh_tcp()));
                assert(self.state() == (NetState {
                    sockets: with_tcp(
                        st.sockets,
                        handle,
                        new_tcp_socket(),
                    ),
                    ..st.with_new(fresh_entry(handle, SpecificView::Tcp(fresh_tcp())))
                }));
            } else {
                assert(self.state() == (NetState {
                    sockets: with_udp(st.sockets, handle, new_udp_socket()),
                    ..st.with_new(fresh_entry(handle, SpecificView::Udp(None)))
                }));
            }
        }
        Ok(fd)
    }

    /// Creates a new [`SocketFd`] for a newly-created [`SocketEntry`].
    fn new_socket_fd_for(&mut self, entry: SocketEntry) -> (r: SocketFd)
        ensures
            r.number() == old(self).state().entries.len(),
            final(self).state() == old(self).state().with_new(entry@),
            final(self).owners@ == old(self).owners@,
            final(self).interaction() == old(self).interaction(),
            final(self).entries@ == old(self).entries@.push(Some(entry)),
    {
        let ghost st = self.state();
        let index: usize = self.entries.len();
        self.entries.push(Some(entry));
        assert(self.state() =~= st.with_new(entry@));
        SocketFd { index }
    }

    /// Set the network proxy for the socket at `fd`. Returns whether there is such a socket.
    ///
    /// Associating a proxy enables event notification and sending/receiving data through the
    /// proxy. If no proxy is set, then the socket can still be used for sending/receiving data via
    /// [`send`](Self::send)/[`receive`](Self::receive), but no events will be notified.
    #[must_use]
    pub fn set_socket_proxy(&mut self, fd: &SocketFd, proxy: NetworkProxy) -> (r: bool)
        requires
            old(self).wf(),
            proxy.wf(),
        ensures
            final(self).wf(),
            final(self).interaction() == old(self).interaction(),
            r == old(self).state().is_live(fd.number()),
            final(self).state() == if r {
                old(self).state().with_proxy(fd.number(), Some(proxy@))
            } else {
                old(self).state()
            },
    {
        if !self.is_open(fd) {
            return false;
        }
        let ghost st = self.state();
        if let Some(entry) = &mut self.entries[fd.index] {
            entry.proxy = Some(proxy);
        }
        assert(self.state() =~= st.with_proxy(fd.number(), Some(proxy@)));
        proof {
            assert(st.is_live(fd.number()));
            lemma_change_one(st, self.owners@, self.state(), self.owners@, fd.number());
        }
        true
    }

    /// Take the network proxy of the socket at `fd`.
    pub fn take_socket_proxy(&mut self, fd: &SocketFd) -> (r: Option<NetworkProxy>)
        requires
            old(self).wf(),
        ensures
            final(self).wf(),
            final(self).interaction() == old(self).interaction(),
            if old(self).state().is_live(fd.number()) {
                &&& r is Some <==> old(self).state().entry(fd.number()).proxy is Some
                &&& r is Some ==> r->Some_0.wf() && Some(r->Some_0@) == old(self).state().entry(
                    fd.number(),
                ).proxy
                &&& final(self).state() == old(self).state().with_proxy(fd.number(), None)
            } else {
                r is None && final(self).state() == old(self).state()
            },
    {
        if !self.is_open(fd) {
            return None;
        }
        let ghost st = self.state();
        let ghost i = fd.number();
        assert(has_valid_proxy(self.entries@[i]));
        assert(st.entries[i] == entry_view(self.entries@[i]));
        let taken = match &mut self.entries[fd.index] {
            Some(entry) => entry.proxy.take(),
            None => None,
        };
        assert(self.state() =~= st.with_proxy(i, None));
        proof {
            assert(st.is_live(i));
            lemma_change_one(st, self.owners@, self.state(), self.owners@, i);
        }
        taken
    }

    /// Put the proxy of a descriptor, if it has one, in a state.
    fn set_proxy_state(&mut self, i: usize, state: SocketState)
        requires
            old(self).wf(),
            old(self).state().is_live(i as int),
        ensures
            final(self).wf(),
            final(self).interaction() == old(self).interaction(),
            final(self).state() == old(self).state().with_proxy_state(i as int, state),
            final(self).owners@ == old(self).owners@,
    {
        let ghost st = self.state();
        assert(has_valid_proxy(self.entries@[i as int]));
        assert(st.entries[i as int] == entry_view(self.entries@[i as int]));
        if let Some(entry) = &mut self.entries[i] {
            if let Some(proxy) = &mut entry.proxy {
                proxy.set_state(state);
            }
        }
        assert(self.state() =~= st.with_proxy_state(i as int, state));
        proof {
            lemma_change_one(st, self.owners@, self.state(), self.owners@, i as int);
        }
    }

    /// Give the proxy of a descriptor, if it has one, an error to report.
    fn set_proxy_error(&mut self, i: usize, error: SocketAsyncError)
        requires
            old(self).wf(),
            old(self).state().is_live(i as int),
        ensures
            final(self).wf(),
            final(self).interaction() == old(self).interaction(),
            final(self).state() == old(self).state().with_proxy_error(i as int, error),
            final(self).owners@ == old(self).owners@,
    {
        let ghost st = self.state();
        assert(has_valid_proxy(self.entries@[i as int]));
        assert(st.entries[i as int] == entry_view(self.entries@[i as int]));
        if let Some(entry) = &mut self.entries[i] {
            if let Some(proxy) = &mut entry.proxy {
                proxy.set_async_error(error);
            }
        }
        assert(self.state() =~= st.with_proxy_error(i as int, error));
        proof {
            lemma_change_one(st, self.owners@, self.state(), self.owners@, i as int);
        }
    }

    /// Whether the descriptor is a TCP socket, and the handle of its socket.
    fn handle_of(&self, i: usize) -> (r: (bool, SocketHandle))
        requires
            self.wf(),
            self.state().is_live(i as int),
        ensures
            r.0 == self.state().is_tcp_fd(i as int),
            r.1 == self.state().entry(i as int).handle,
            r.0 ==> is_tcp(self.state().sockets, r.1),
            !r.0 ==> is_udp(self.state().sockets, r.1) && self.state().is_udp_fd(i as int),
            sockets_of(self.socket_set) == self.state().sockets,
    {
        let ghost st = self.state();
        assert(st.entries[i as int] == entry_view(self.entries@[i as int]));
        assert(is_valid_entry(st.sockets, self.owners@, i as int, st.entry(i as int)));
        match &self.entries[i] {
            Some(entry) => match entry.specific {
                ProtocolSpecific::Tcp(_) => (true, entry.handle),
                ProtocolSpecific::Udp(_) => (false, entry.handle),
            },
            None => (false, self.closing_in_background[0]),
        }
    }
}

impl Network {
    /// The TCP-specific data of a descriptor, if it is a TCP socket.
    fn tcp_specific(&self, i: usize) -> (r: Option<&TcpSpecific>)
        ensures
            r is Some <==> self.state().is_tcp_fd(i as int),
            r is Some ==> r->Some_0@ == self.state().tcp(i as int),
    {
        if i >= self.entries.len() {
            return None;
        }
        assert(self.state().entries[i as int] == entry_view(self.entries@[i as int]));
        match &self.entries[i] {
            Some(entry) => match &entry.specific {
                ProtocolSpecific::Tcp(t) => Some(t),
                ProtocolSpecific::Udp(_) => None,
            },
            None => None,
        }
    }

    /// Whether a descriptor is a TCP socket.
    pub fn is_tcp(&self, fd: &SocketFd) -> (r: bool)
        ensures
            r == self.state().is_tcp_fd(fd.number()),
    {
        self.tcp_specific(fd.index).is_some()
    }

    /// Whether [`connect`](Self::connect) can be asked for.
    pub fn is_connectable(&self, fd: &SocketFd, addr: &SocketAddr, check_progress: bool) -> (r: bool)
        requires
            self.wf(),
        ensures
            r == is_connectable(self.state(), fd.number(), *addr, check_progress),
    {
        let remote = match addr {
            SocketAddr::V4(remote) => *remote,
            SocketAddr::V6(_) => {
                return true;
            },
        };
        let t = match self.tcp_specific(fd.index) {
            Some(t) => t,
            None => {
                return true;
            },
        };
        let (_, handle) = self.handle_of(fd.index);
        let state = sockets::tcp_state(&self.socket_set, handle);
        if check_progress {
            match state {
                TcpState::Established | TcpState::SynSent | TcpState::Closed
                | TcpState::TimeWait => true,
                _ => false,
            }
        } else {
            let is_open = sockets::tcp_is_open(&self.socket_set, handle);
            let addressable = remote.port != 0 && remote.ip != 0 && sockets::address_count(
                &self.interface,
            ) > 0;
            !self.local_port_allocator.can_allocate(0) || (!is_open && (!addressable
                || t.local_port.is_none()))
        }
    }

    /// Whether [`bind`](Self::bind) can be asked for.
    pub fn is_bindable(&self, fd: &SocketFd, socket_addr: &SocketAddr) -> (r: bool)
        ensures
            r == is_bindable(self.state(), fd.number(), *socket_addr),
    {
        let port: u16 = match socket_addr {
            SocketAddr::V4(addr) => addr.port,
            SocketAddr::V6(_) => {
                return true;
            },
        };
        match self.tcp_specific(fd.index) {
            Some(t) => t.local_port.is_none() || t.server_socket.is_some()
                || !self.local_port_allocator.can_allocate(port),
            None => true,
        }
    }

    /// Whether [`listen`](Self::listen) can be asked for.
    pub fn can_listen(&self, fd: &SocketFd, backlog: u16) -> (r: bool)
        ensures
            r == can_listen(self.state(), fd.number(), backlog),
    {
        if !self.is_open(fd) {
            return true;
        }
        match self.tcp_specific(fd.index) {
            Some(t) => backlog > 0 && match &t.server_socket {
                None => t.local_port.is_none() || !self.local_port_allocator.can_allocate(0),
                Some(server) => server.ip_listen_endpoint.port == 0 || (server.backlog.is_none()
                    && server.socket_set_handles.len() == 0),
            },
            None => false,
        }
    }

    /// Whether [`accept`](Self::accept) can be asked for.
    pub fn can_accept(&self, fd: &SocketFd) -> (r: bool)
        requires
            self.wf(),
        ensures
            r == can_accept(self.state(), fd.number()),
    {
        if !self.is_open(fd) {
            return true;
        }
        match self.tcp_specific(fd.index) {
            Some(t) => match &t.local_port {
                Some(port) => self.local_port_allocator.use_count(port.port()) < u16::MAX,
                None => true,
            },
            None => false,
        }
    }

    /// Whether [`prepare_for_poll`](Self::prepare_for_poll) can be asked for.
    pub fn is_drainable(&self) -> (r: bool)
        requires
            self.wf(),
        ensures
            r == are_drainable(self.state()),
    {
        let mut i: usize = 0;
        while i < self.entries.len()
            invariant
                self.wf(),
                i <= self.entries.len(),
                forall|j: int|
                    0 <= j < i && #[trigger] self.state().is_live(j) ==> is_drainable(
                        self.state().sockets,
                        self.state().entry(j),
                    ),
            decreases self.entries.len() - i,
        {
            assert(self.state().entries[i as int] == entry_view(self.entries@[i as int]));
            if let Some(entry) = &self.entries[i] {
                assert(self.state().is_live(i as int));
                assert(is_valid_entry(
                    self.state().sockets,
                    self.owners@,
                    i as int,
                    self.state().entry(i as int),
                ));
                let fits = match (&entry.proxy, &entry.specific) {
                    (None, _) => true,
                    (Some(NetworkProxy::Stream(_)), ProtocolSpecific::Tcp(_)) => true,
                    (Some(NetworkProxy::Datagram(channel)), ProtocolSpecific::Udp(u)) => find_no_v6(
                        &self.socket_set,
                        entry.handle,
                        channel,
                        u.remote_endpoint,
                    ),
                    _ => false,
                };
                if !fits {
                    assert(!is_drainable(self.state().sockets, self.state().entry(i as int)));
                    return false;
                }
            }
            i = i + 1;
        }
        true
    }
}

/// Whether no datagram with an IPv6 destination may be looked at while the datagrams of a channel
/// are sent.
fn find_no_v6(
    socket_set: &SocketSet<'static>,
    handle: SocketHandle,
    channel: &DatagramSocketChannel,
    default: Option<SocketAddrV4>,
) -> (r: bool)
    requires
        is_udp(sockets_of(*socket_set), handle),
    ensures
        r == reaches_no_v6(channel@.tx, default, udp_at(sockets_of(*socket_set), handle)),
{
    let ghost v = udp_at(sockets_of(*socket_set), handle);
    let ghost tx = channel@.tx;
    let heads = channel.tx_heads();
    let bound = sockets::udp_endpoint(socket_set, handle).port != 0;
    let capacity: usize = sockets::udp_send_capacity(socket_set, handle);
    let mut used: usize = sockets::udp_send_queue(socket_set, handle);
    let mut k: usize = 0;
    while k < heads.len()
        invariant
            k <= heads.len(),
            v == udp_at(sockets_of(*socket_set), handle),
            tx == channel@.tx,
            heads@.len() == tx.len(),
            forall|j: int|
                0 <= j < heads@.len() ==> (#[trigger] heads@[j]).0 == tx[j].addr && heads@[j].1
                    == tx[j].data.len(),
            bound == (v.endpoint.port != 0),
            capacity == v.tx_capacity,
            used == v.tx_bytes + bytes_to_send(tx, default, k as int),
            forall|j: int| 0 <= j < k ==> #[trigger] may_pass(tx, default, v, j),
            forall|j: int| 0 <= j < k ==> !is_v6((#[trigger] tx[j]).addr),
        decreases heads.len() - k,
    {
        let (addr, len) = heads[k];
        let ghost m = k as int;
        assert(heads@[m].0 == tx[m].addr && heads@[m].1 == tx[m].data.len());
        let destination = match addr {
            Some(SocketAddr::V6(_)) => {
                assert(is_v6(tx[m].addr));
                return false;
            },
            Some(SocketAddr::V4(to)) => Some(to),
            None => default,
        };
        assert(destination == datagram_destination(tx[m], default));
        if let Some(to) = destination {
            if !bound || to.ip == 0 || to.port == 0 || used > capacity || len > capacity - used {
                assert(!may_pass(tx, default, v, m));
                return true;
            }
            used = used + len;
        }
        assert(may_pass(tx, default, v, m));
        k = k + 1;
    }
    true
}

/// What leads to a socket leads to one that is there.
proof fn lemma_used_is_there(st: NetState, owners: Map<SocketHandle, SocketOwner>, h: SocketHandle)
    requires
        is_valid_network(st, owners),
    ensures
        used_by(st, h) ==> st.sockets.contains_key(h) && owners.contains_key(h),
        forall|i: int| #[trigger] st.is_live(i) && st.entry(i).handle == h ==> owners[h]
            == SocketOwner::Descriptor(i),
        forall|i: int| #[trigger] st.is_live(i) && in_backlog(st, i, h) ==> owners[h]
            == SocketOwner::Backlog(i),
        st.closing.contains(h) ==> owners[h] == SocketOwner::Closing,
{
    if exists|i: int| #[trigger] st.is_live(i) && st.entry(i).handle == h {
        let i = choose|i: int| #[trigger] st.is_live(i) && st.entry(i).handle == h;
        assert(is_valid_entry(st.sockets, owners, i, st.entry(i)));
    }
    assert forall|i: int| #[trigger] st.is_live(i) && in_backlog(st, i, h) implies owners[h]
        == SocketOwner::Backlog(i) && st.sockets.contains_key(h) && owners.contains_key(h) by {
        assert(is_valid_entry(st.sockets, owners, i, st.entry(i)));
        let handles = st.tcp(i).server->Some_0.handles;
        let k = choose|k: int| 0 <= k < handles.len() && handles[k] == h;
        assert(is_tcp(st.sockets, handles[k]));
    }
    if st.closing.contains(h) {
        let k = choose|k: int| 0 <= k < st.closing.len() && st.closing[k] == h;
        assert(is_tcp(st.sockets, st.closing[k]));
    }
}

impl Network {
    /// Initiate a connection to an IP address, at `now` microseconds.
    ///
    /// When `check_progress` is false, this function attempts to initiate a connection.
    /// Otherwise, this function checks the progress of an ongoing connection.
    pub fn connect(&mut self, fd: &SocketFd, addr: &SocketAddr, check_progress: bool, now: i64) -> (r:
        Result<(), ConnectError>)
        requires
            old(self).wf(),
            now >= 0,
            is_connectable(old(self).state(), fd.number(), *addr, check_progress),
        ensures
            final(self).wf(),
            final(self).interaction() == old(self).interaction(),
            connects(
                old(self).state(),
                fd.number(),
                *addr,
                check_progress,
                now,
                final(self).state(),
                r,
            ),
    {
        let remote = match addr {
            SocketAddr::V4(addr) => *addr,
            SocketAddr::V6(_) => {
                return Err(ConnectError::UnsupportedAddress(*addr));
            },
        };
        if !self.is_open(fd) {
            return Err(ConnectError::InvalidFd);
        }
        let i: usize = fd.index;
        let (tcp, handle) = self.handle_of(i);
        if tcp {
            if check_progress {
                let state = sockets::tcp_state(&self.socket_set, handle);
                self.report_progress(i, state, now)
            } else {
                self.connect_tcp(i, handle, remote, now)
            }
        } else {
            if remote.port == 0 {
                return Err(ConnectError::Unaddressable);
            }
            let ghost st = self.state();
            if !sockets::udp_is_open(&self.socket_set, handle) {
                if let Err(e) = self.bind_udp_to_ephemeral(i, handle) {
                    return Err(ConnectError::PortAllocationFailure(e));
                }
            }
            let ghost bound = self.state();
            if let Some(entry) = &mut self.entries[i] {
                entry.specific = ProtocolSpecific::Udp(
                    UdpSpecific { remote_endpoint: Some(remote) },
                );
            }
            assert(self.state() =~= udp_connected(bound, i as int, remote));
            proof {
                lemma_change_one(bound, self.owners@, self.state(), self.owners@, i as int);
            }
            self.set_proxy_state(i, SocketState::Connected);
            Ok(())
        }
    }

    /// Report how far a connection attempt has come.
    fn report_progress(&mut self, i: usize, state: TcpState, now: i64) -> (r: Result<
        (),
        ConnectError,
    >)
        requires
            old(self).wf(),
            old(self).state().is_tcp_fd(i as int),
            now >= 0,
            state is Established || state is SynSent || state is Closed || state is TimeWait,
        ensures
            final(self).wf(),
            final(self).interaction() == old(self).interaction(),
            (final(self).state(), r) == progress_result(old(self).state(), i as int, state, now),
    {
        let ghost st = self.state();
        assert(is_valid_entry(st.sockets, self.owners@, i as int, st.entry(i as int)));
        match state {
            TcpState::Established => {
                // already connected
                self.set_proxy_state(i, SocketState::Connected);
                Ok(())
            },
            TcpState::SynSent => {
                self.set_proxy_state(i, SocketState::Connecting);
                Err(ConnectError::InProgress)
            },
            _ => {
                assert(st.entries[i as int] == entry_view(self.entries@[i as int]));
                let (initiated_at, has_proxy) = match &self.entries[i] {
                    Some(entry) => match &entry.specific {
                        ProtocolSpecific::Tcp(t) => (
                            t.connect_initiated_at_us,
                            entry.proxy.is_some(),
                        ),
                        ProtocolSpecific::Udp(_) => (None, false),
                    },
                    None => (None, false),
                };
                // Distinguish timeout from RST using elapsed time
                if has_proxy && has_timed_out(initiated_at, now) {
                    self.set_proxy_error(i, SocketAsyncError::TimedOut);
                    return Err(ConnectError::TimedOut);
                }
                self.set_proxy_error(i, SocketAsyncError::ConnectionRefused);
                Err(ConnectError::InvalidState)
            },
        }
    }

    fn connect_tcp(&mut self, i: usize, handle: SocketHandle, remote: SocketAddrV4, now: i64) -> (r:
        Result<(), ConnectError>)
        requires
            old(self).wf(),
            old(self).state().is_tcp_fd(i as int),
            old(self).state().entry(i as int).handle == handle,
            now >= 0,
            can_allocate(old(self).state().ports, 0) ==> !old(self).state().tcp_socket(
                i as int,
            ).state.is_open() && (can_connect_to(old(self).state(), remote) ==> old(
                self,
            ).state().tcp(i as int).local_port is None),
        ensures
            final(self).wf(),
            final(self).interaction() == old(self).interaction(),
            ({
                let st = old(self).state();
                let after = final(self).state();
                if !can_allocate(st.ports, 0) {
                    after == st && r is Err && r->Err_0 == ConnectError::PortAllocationFailure(
                        LocalPortAllocationError::NoAvailableFreePorts,
                    )
                } else {
                    begins_to_connect(st, i as int, remote, now, after, r)
                }
            }),
    {
        let ghost st = self.state();
        let ghost k = i as int;
        assert(is_valid_entry(st.sockets, self.owners@, k, st.entry(k)));
        assert(st.entries[k] == entry_view(self.entries@[k]));
        let local_port = match self.local_port_allocator.ephemeral_port() {
            Ok(p) => p,
            Err(e) => {
                return Err(ConnectError::PortAllocationFailure(e));
            },
        };
        let port: u16 = local_port.port();
        assert(may_get_port(st.ports, 0, port));
        let connected = sockets::tcp_connect(
            &mut self.socket_set,
            &mut self.interface,
            handle,
            remote,
            port,
        );
        match connected {
            Ok(()) => {
                let ghost ip = source_address(st.addrs)->Some_0;
                sockets::tcp_set_timeout(&mut self.socket_set, handle, Some(TCP_CONNECT_TIMEOUT));
                if let Some(entry) = &mut self.entries[i] {
                    if let ProtocolSpecific::Tcp(t) = &mut entry.specific {
                        t.connect_initiated_at_us = Some(now);
                        t.local_port = Some(local_port);
                    }
                }
                let ghost begun = tcp_connecting(st, k, ip, port, remote, now);
                assert(self.state().sockets =~= begun.sockets);
                assert(self.state().entries =~= begun.entries);
                assert(self.state() =~= begun);
                proof {
                    lemma_change_one(st, self.owners@, begun, self.owners@, k);
                }
                let state = sockets::tcp_state(&self.socket_set, handle);
                self.report_progress(i, state, now)
            },
            Err(e) => {
                self.local_port_allocator.deallocate(local_port);
                proof {
                    local_ports::lemma_allocate_then_release(st.ports, port);
                }
                assert(self.state() =~= st);
                self.set_proxy_error(i, SocketAsyncError::ConnectionRefused);
                Err(ConnectError::Unaddressable)
            },
        }
    }

    /// Bind an unbound UDP socket to some ephemeral port.
    fn bind_udp_to_ephemeral(&mut self, i: usize, handle: SocketHandle) -> (r: Result<
        (),
        LocalPortAllocationError,
    >)
        requires
            old(self).wf(),
            old(self).state().is_udp_fd(i as int),
            old(self).state().entry(i as int).handle == handle,
            old(self).state().udp_socket(i as int).endpoint.port == 0,
        ensures
            final(self).wf(),
            final(self).interaction() == old(self).interaction(),
            final(self).owners@ == old(self).owners@,
            r is Err <==> !can_allocate(old(self).state().ports, 0),
            r is Err ==> r->Err_0 == LocalPortAllocationError::NoAvailableFreePorts
                && final(self).state() == old(self).state(),
            r is Ok ==> exists|port: u16| #[trigger]
                may_get_port(old(self).state().ports, 0, port) && final(self).state() == udp_bound(
                    old(self).state(),
                    i as int,
                    ListenEndpoint { addr: None, port },
                ),
    {
        let ghost st = self.state();
        let ghost k = i as int;
        assert(is_valid_entry(st.sockets, self.owners@, k, st.entry(k)));
        let local_port = match self.local_port_allocator.ephemeral_port() {
            Ok(p) => p,
            Err(e) => {
                return Err(e);
            },
        };
        let endpoint = ListenEndpoint { addr: None, port: local_port.port() };
        // Binding an unbound socket to a port cannot fail.
        let bound = sockets::udp_bind(&mut self.socket_set, handle, endpoint);
        assert(may_get_port(st.ports, 0, endpoint.port));
        assert(self.state() =~= udp_bound(st, k, endpoint));
        proof {
            lemma_change_one(st, self.owners@, self.state(), self.owners@, k);
        }
        Ok(())
    }

    /// Get the local address and port a socket is bound to.
    pub fn get_local_addr(&self, fd: &SocketFd) -> (r: Result<SocketAddr, LocalAddrError>)
        requires
            self.wf(),
        ensures
            r == if self.state().is_live(fd.number()) {
                Ok(local_addr(self.state(), fd.number()))
            } else {
                Err(LocalAddrError::InvalidFd)
            },
    {
        if !self.is_open(fd) {
            return Err(LocalAddrError::InvalidFd);
        }
        let (tcp, handle) = self.handle_of(fd.index);
        if tcp {
            match sockets::tcp_local_endpoint(&self.socket_set, handle) {
                Some(endpoint) => Ok(SocketAddr::V4(endpoint)),
                None => Ok(SocketAddr::V4(SocketAddrV4 { ip: 0, port: 0 })),
            }
        } else {
            let endpoint = sockets::udp_endpoint(&self.socket_set, handle);
            match endpoint.addr {
                Some(ip) => Ok(SocketAddr::V4(SocketAddrV4 { ip, port: endpoint.port })),
                None => Ok(SocketAddr::V4(SocketAddrV4 { ip: 0, port: endpoint.port })),
            }
        }
    }

    /// Get the remote address and port a socket is connected to, if any.
    pub fn get_remote_addr(&self, fd: &SocketFd) -> (r: Result<SocketAddr, RemoteAddrError>)
        requires
            self.wf(),
        ensures
            r == if self.state().is_live(fd.number()) {
                remote_addr(self.state(), fd.number())
            } else {
                Err(RemoteAddrError::InvalidFd)
            },
    {
        if !self.is_open(fd) {
            return Err(RemoteAddrError::InvalidFd);
        }
        let i: usize = fd.index;
        let (tcp, handle) = self.handle_of(i);
        let remote = if tcp {
            sockets::tcp_remote_endpoint(&self.socket_set, handle)
        } else {
            self.default_destination(i)
        };
        match remote {
            Some(remote) => Ok(SocketAddr::V4(remote)),
            None => Err(RemoteAddrError::NotConnected),
        }
    }

    /// The address that datagrams are sent to by default.
    fn default_destination(&self, i: usize) -> (r: Option<SocketAddrV4>)
        requires
            self.state().is_udp_fd(i as int),
        ensures
            r == self.state().entry(i as int).specific->Udp_0,
    {
        assert(self.state().entries[i as int] == entry_view(self.entries@[i as int]));
        match &self.entries[i] {
            Some(entry) => match &entry.specific {
                ProtocolSpecific::Udp(u) => u.remote_endpoint,
                ProtocolSpecific::Tcp(_) => None,
            },
            None => None,
        }
    }

    /// Bind a socket to a specific address and port. If the port is 0, an ephemeral port is
    /// allocated. A TCP socket that is connected cannot be bound.
    pub fn bind(&mut self, fd: &SocketFd, socket_addr: &SocketAddr) -> (r: Result<(), BindError>)
        requires
            old(self).wf(),
            is_bindable(old(self).state(), fd.number(), *socket_addr),
        ensures
            final(self).wf(),
            final(self).interaction() == old(self).interaction(),
            binds(old(self).state(), fd.number(), *socket_addr, final(self).state(), r),
    {
        let addr = match socket_addr {
            SocketAddr::V4(addr) => *addr,
            SocketAddr::V6(_) => {
                return Err(BindError::UnsupportedAddress(*socket_addr));
            },
        };
        if !self.is_open(fd) {
            return Err(BindError::InvalidFd);
        }
        let i: usize = fd.index;
        let ghost st = self.state();
        let ghost k = i as int;
        let (tcp, handle) = self.handle_of(i);
        assert(is_valid_entry(st.sockets, self.owners@, k, st.entry(k)));
        assert(st.entries[k] == entry_view(self.entries@[k]));
        if tcp && self.is_server(i) {
            return Err(BindError::AlreadyBound);
        }
        let lp = match self.local_port_allocator.allocate_local_port(addr.port) {
            Ok(lp) => lp,
            Err(_) => {
                return Err(BindError::PortAlreadyInUse(addr.port));
            },
        };
        let port: u16 = lp.port();
        assert(may_get_port(st.ports, addr.port, port));
        let endpoint = ListenEndpoint { addr: Some(addr.ip), port };
        if tcp {
            if let Some(entry) = &mut self.entries[i] {
                if let ProtocolSpecific::Tcp(t) = &mut entry.specific {
                    t.local_port = Some(lp);
                    t.server_socket = Some(
                        TcpServerSpecific {
                            ip_listen_endpoint: endpoint,
                            backlog: None,
                            socket_set_handles: Vec::new(),
                        },
                    );
                }
            }
            proof {
                let bound = tcp_bound(st, k, addr.ip, port);
                assert(self.state().entries[k] is Some);
                assert(self.state().tcp(k).server->Some_0 =~= bound.tcp(k).server->Some_0);
                assert(self.state().tcp(k) =~= bound.tcp(k));
                assert(self.state().entries =~= bound.entries);
                assert(self.state() =~= bound);
                lemma_change_one(st, self.owners@, self.state(), self.owners@, k);
            }
        } else {
            if !sockets::udp_bind(&mut self.socket_set, handle, endpoint) {
                self.local_port_allocator.deallocate(lp);
                proof {
                    local_ports::lemma_allocate_then_release(st.ports, port);
                }
                assert(self.state() =~= st);
                return Err(BindError::AlreadyBound);
            }
            assert(self.state() =~= udp_bound(st, k, endpoint));
            proof {
                lemma_change_one(st, self.owners@, self.state(), self.owners@, k);
            }
        }
        Ok(())
    }

    /// Whether a TCP socket has been bound or is listening.
    fn is_server(&self, i: usize) -> (r: bool)
        requires
            self.state().is_tcp_fd(i as int),
        ensures
            r == (self.state().tcp(i as int).server is Some),
    {
        assert(self.state().entries[i as int] == entry_view(self.entries@[i as int]));
        match &self.entries[i] {
            Some(entry) => match &entry.specific {
                ProtocolSpecific::Tcp(t) => t.server_socket.is_some(),
                ProtocolSpecific::Udp(_) => false,
            },
            None => false,
        }
    }

    /// Send data over a socket, optionally specifying the destination address. No flag is
    /// supported, and IPv6 destinations are not either.
    ///
    /// If the socket is connection-mode and the destination address is provided,
    /// `Err(SendError::UnnecessaryDestinationAddress)` is returned.
    pub fn send(
        &mut self,
        fd: &SocketFd,
        buf: &[u8],
        flags: SendFlags,
        destination: Option<SocketAddr>,
    ) -> (r: Result<usize, SendError>)
        requires
            old(self).wf(),
            old(self).state().is_live(fd.number()) ==> flags.bits == 0,
            old(self).state().is_udp_fd(fd.number()) && destination is Some
                ==> destination->Some_0 is V4,
        ensures
            final(self).wf(),
            final(self).interaction() == old(self).interaction(),
            sends(old(self).state(), fd.number(), buf@, destination, final(self).state(), r),
    {
        if !self.is_open(fd) {
            return Err(SendError::InvalidFd);
        }
        let i: usize = fd.index;
        let ghost k = i as int;
        let ghost st = self.state();
        let (tcp, handle) = self.handle_of(i);
        assert(is_valid_entry(st.sockets, self.owners@, k, st.entry(k)));
        if tcp {
            if destination.is_some() {
                // TCP is connection-oriented, so no destination address should be provided
                return Err(SendError::UnnecessaryDestinationAddress);
            }
            let sent = sockets::tcp_send(&mut self.socket_set, handle, buf);
            assert(self.state() =~= (NetState { sockets: sockets_of(self.socket_set), ..st }));
            proof {
                lemma_change_one(st, self.owners@, self.state(), self.owners@, k);
            }
            match sent {
                Some(n) => Ok(n),
                None => Err(SendError::SocketInInvalidState),
            }
        } else {
            let to = match destination {
                Some(SocketAddr::V4(addr)) => addr,
                _ => match self.default_destination(i) {
                    Some(addr) => addr,
                    None => {
                        return Err(SendError::DestinationAddressRequired);
                    },
                },
            };
            if !sockets::udp_is_open(&self.socket_set, handle) {
                if let Err(e) = self.bind_udp_to_ephemeral(i, handle) {
                    return Err(SendError::PortAllocationFailure(e));
                }
            }
            let ghost bound = self.state();
            assert(is_valid_entry(bound.sockets, self.owners@, k, bound.entry(k)));
            let sent = sockets::udp_send(&mut self.socket_set, handle, buf, to);
            assert(self.state() =~= (NetState { sockets: sockets_of(self.socket_set), ..bound }));
            proof {
                lemma_change_one(bound, self.owners@, self.state(), self.owners@, k);
            }
            match sent {
                Ok(()) => Ok(buf.len()),
                Err(UdpSendError::BufferFull) => Err(SendError::BufferFull),
                Err(UdpSendError::Unaddressable) => Err(SendError::Unaddressable),
            }
        }
    }

    /// Receive data from a connected socket. Other flags than `DONTWAIT`, `TRUNC` and `DISCARD`
    /// are not supported, nor is `TRUNC` for TCP sockets.
    ///
    /// If the `source_addr` is `Some` and the underlying protocol provides a source address, it
    /// will be updated. e.g., UDP does provide the source address, while TCP does not (because it
    /// is connection-oriented, once it is established, both ends should already know each other's
    /// addresses).
    ///
    /// On success, returns the number of bytes received.
    pub fn receive(
        &mut self,
        fd: &SocketFd,
        buf: &mut [u8],
        flags: ReceiveFlags,
        source_addr: Option<&mut Option<SocketAddr>>,
    ) -> (r: Result<usize, ReceiveError>)
        requires
            old(self).wf(),
            old(self).state().is_live(fd.number()) ==> flags.bits & !(ReceiveFlags::DONTWAIT
                | ReceiveFlags::TRUNC | ReceiveFlags::DISCARD) == 0,
            old(self).state().is_tcp_fd(fd.number()) ==> !flags.has(ReceiveFlags::TRUNC),
        ensures
            final(self).wf(),
            final(self).interaction() == old(self).interaction(),
            receives(
                old(self).state(),
                fd.number(),
                old(self).first_piece(fd.number()),
                old(buf)@,
                flags,
                final(self).state(),
                final(buf)@,
                r,
            ),
            match source_addr {
                Some(p) => *final(p) == received_from(old(self).state(), fd.number(), *p),
                None => true,
            },
    {
        if !self.is_open(fd) {
            return Err(ReceiveError::InvalidFd);
        }
        let i: usize = fd.index;
        let ghost k = i as int;
        let ghost st = self.state();
        let (tcp, handle) = self.handle_of(i);
        assert(is_valid_entry(st.sockets, self.owners@, k, st.entry(k)));
        if tcp {
            if let Some(source_addr) = source_addr {
                // TCP is connection-oriented, so no need to provide a source address
                *source_addr = None;
            }
            let received = if flags.contains(ReceiveFlags::DISCARD) {
                self.discard(handle)
            } else {
                sockets::tcp_recv(&mut self.socket_set, handle, buf)
            };
            assert(self.state() =~= (NetState { sockets: sockets_of(self.socket_set), ..st }));
            proof {
                lemma_change_one(st, self.owners@, self.state(), self.owners@, k);
            }
            match received {
                Ok(n) => Ok(n),
                Err(e) => Err(report_receive_error(e)),
            }
        } else {
            let received = sockets::udp_recv(&mut self.socket_set, handle);
            assert(self.state() =~= (NetState { sockets: sockets_of(self.socket_set), ..st }));
            proof {
                lemma_change_one(st, self.owners@, self.state(), self.owners@, k);
            }
            match received {
                Some((data, from)) => {
                    if let Some(source_addr) = source_addr {
                        *source_addr = Some(SocketAddr::V4(from));
                    }
                    let size: usize = data.len();
                    if flags.contains(ReceiveFlags::DISCARD) {
                        assert(data@.take(0) + buf@.skip(0) =~= buf@);
                        Ok(size)
                    } else {
                        let length: usize = if size < buf.len() {
                            size
                        } else {
                            buf.len()
                        };
                        bytes::copy_into(buf, data.as_slice(), length);
                        if flags.contains(ReceiveFlags::TRUNC) {
                            // return the real size of the packet or datagram, even when it was
                            // longer than the passed buffer.
                            Ok(size)
                        } else {
                            Ok(length)
                        }
                    }
                },
                None => Ok(0),
            }
        }
    }

    /// Throw away what a TCP socket has received.
    fn discard(&mut self, handle: SocketHandle) -> (r: Result<usize, TcpRecvError>)
        requires
            is_tcp(sockets_of(old(self).socket_set), handle),
        ensures
            final(self).interaction() == old(self).interaction(),
            final(self).entries == old(self).entries,
            final(self).local_port_allocator == old(self).local_port_allocator,
            final(self).closing_in_background == old(self).closing_in_background,
            final(self).queued_for_closure == old(self).queued_for_closure,
            final(self).owners == old(self).owners,
            final(self).interface == old(self).interface,
            ({
                let before = sockets_of(old(self).socket_set);
                let v = tcp_at(before, handle);
                let after = sockets_of(final(self).socket_set);
                &&& after == with_tcp(before, handle, TcpView { rx: Seq::empty(), ..v })
                &&& r == discarded(v, sockets::first_piece(old(self).socket_set, handle))
            }),
    {
        let ghost before = sockets_of(self.socket_set);
        let ghost v = tcp_at(before, handle);
        // The received data can lie in two pieces.
        let size1: usize = match sockets::tcp_discard(&mut self.socket_set, handle) {
            Ok(n) => n,
            Err(e) => {
                assert(v.rx =~= Seq::empty());
                assert(with_tcp(before, handle, (TcpView { rx: Seq::empty(), ..v })) =~= before);
                return Err(e);
            },
        };
        let ghost mid = tcp_at(sockets_of(self.socket_set), handle);
        assert(mid.rx == v.rx.skip(size1 as int));
        match sockets::tcp_discard(&mut self.socket_set, handle) {
            Ok(size2) => {
                assert(mid.rx.skip(size2 as int) =~= Seq::empty());
                assert(sockets_of(self.socket_set) =~= with_tcp(
                    before,
                    handle,
                    TcpView { rx: Seq::empty(), ..v },
                ));
                Ok(size1 + size2)
            },
            Err(e) => {
                assert(mid.rx =~= Seq::empty());
                assert(sockets_of(self.socket_set) =~= with_tcp(
                    before,
                    handle,
                    TcpView { rx: Seq::empty(), ..v },
                ));
                Err(e)
            },
        }
    }

    /// Set TCP options. There is no congestion control to choose.
    pub fn set_tcp_option(&mut self, fd: &SocketFd, data: TcpOptionData) -> (r: Result<
        (),
        SetTcpOptionError,
    >)
        requires
            old(self).wf(),
            old(self).state().is_tcp_fd(fd.number()) && data is CONGESTION
                ==> data->CONGESTION_0 is NoControl,
        ensures
            final(self).wf(),
            final(self).interaction() == old(self).interaction(),
            sets_tcp_option(old(self).state(), fd.number(), data, final(self).state(), r),
    {
        if !self.is_open(fd) {
            return Err(SetTcpOptionError::InvalidFd);
        }
        let ghost st = self.state();
        let ghost k = fd.number();
        let (tcp, handle) = self.handle_of(fd.index);
        if !tcp {
            return Err(SetTcpOptionError::NotTcpSocket);
        }
        assert(is_valid_entry(st.sockets, self.owners@, k, st.entry(k)));
        match data {
            TcpOptionData::NODELAY(nodelay) => {
                sockets::tcp_set_nagle_enabled(&mut self.socket_set, handle, !nodelay);
            },
            TcpOptionData::KEEPALIVE(keepalive) => {
                sockets::tcp_set_keep_alive(&mut self.socket_set, handle, keepalive);
            },
            TcpOptionData::CONGESTION(_) => {
                sockets::tcp_set_no_congestion_control(&mut self.socket_set, handle);
            },
        }
        assert(self.state() =~= (NetState { sockets: sockets_of(self.socket_set), ..st }));
        proof {
            lemma_change_one(st, self.owners@, self.state(), self.owners@, k);
        }
        Ok(())
    }

    /// Get TCP options.
    pub fn get_tcp_option(&self, fd: &SocketFd, name: TcpOptionName) -> (r: Result<
        TcpOptionData,
        GetTcpOptionError,
    >)
        requires
            self.wf(),
        ensures
            r == tcp_option(self.state(), fd.number(), name),
    {
        if !self.is_open(fd) {
            return Err(GetTcpOptionError::InvalidFd);
        }
        let (tcp, handle) = self.handle_of(fd.index);
        if !tcp {
            return Err(GetTcpOptionError::NotTcpSocket);
        }
        match name {
            TcpOptionName::NODELAY => Ok(
                TcpOptionData::NODELAY(!sockets::tcp_nagle_enabled(&self.socket_set, handle)),
            ),
            TcpOptionName::KEEPALIVE => Ok(
                TcpOptionData::KEEPALIVE(sockets::tcp_keep_alive(&self.socket_set, handle)),
            ),
            TcpOptionName::CONGESTION => Ok(
                TcpOptionData::CONGESTION(
                    sockets::tcp_congestion_control(&self.socket_set, handle),
                ),
            ),
        }
    }
}

/// What filling a backlog with new listening sockets does.
pub open spec fn refills(
    before: Map<SocketHandle, SocketView>,
    server: ServerView,
    after: Map<SocketHandle, SocketView>,
    server_after: ServerView,
) -> bool {
    let had = server.handles;
    let has = server_after.handles;
    &&& server_after == (ServerView { handles: has, ..server })
    &&& has.len() == if had.len() < server.backlog->Some_0 {
        server.backlog->Some_0 as nat
    } else {
        had.len()
    }
    &&& has.take(had.len() as int) == had
    &&& forall|k: int|
        had.len() <= k < has.len() ==> !before.contains_key(#[trigger] has[k]) && after.contains_key(
            has[k],
        ) && after[has[k]] == SocketView::Tcp(new_tcp_socket().listening(server.endpoint))
    &&& forall|j: int, k: int|
        had.len() <= j < k < has.len() ==> #[trigger] has[j] != #[trigger] has[k]
    &&& forall|h: SocketHandle| #[trigger]
        after.contains_key(h) <==> before.contains_key(h) || has.skip(had.len() as int).contains(h)
    &&& forall|h: SocketHandle| before.contains_key(h) ==> #[trigger] after[h] == before[h]
}

impl TcpServerSpecific {
    /// Make new listening sockets until there are as many as the backlog wants.
    fn refill_to_backlog(&mut self, socket_set: &mut SocketSet<'static>)
        requires
            old(self)@.backlog is Some,
            old(self)@.endpoint.port != 0,
        ensures
            refills(
                sockets_of(*old(socket_set)),
                old(self)@,
                sockets_of(*final(socket_set)),
                final(self)@,
            ),
    {
        let ghost before = sockets_of(*socket_set);
        let ghost had = self.socket_set_handles@;
        let ghost n0 = had.len() as int;
        let ghost server = self@;
        let backlog: u16 = match self.backlog {
            Some(n) => n,
            None => 0,
        };
        assert(had.skip(n0) =~= Seq::empty());
        assert(had.take(n0) =~= had);
        while self.socket_set_handles.len() < backlog as usize
            invariant
                n0 == had.len(),
                server.backlog == Some(backlog),
                server.endpoint.port != 0,
                self@ == (ServerView { handles: self.socket_set_handles@, ..server }),
                had.len() <= self.socket_set_handles@.len(),
                had.len() < backlog ==> self.socket_set_handles@.len() <= backlog,
                had.len() >= backlog ==> self.socket_set_handles@ == had,
                self.socket_set_handles@.take(n0) == had,
                forall|k: int|
                    n0 <= k < self.socket_set_handles@.len() ==> !before.contains_key(
                        #[trigger] self.socket_set_handles@[k],
                    ) && sockets_of(*socket_set).contains_key(self.socket_set_handles@[k])
                        && sockets_of(*socket_set)[self.socket_set_handles@[k]] == SocketView::Tcp(
                        new_tcp_socket().listening(server.endpoint),
                    ),
                forall|j: int, k: int|
                    n0 <= j < k < self.socket_set_handles@.len()
                        ==> #[trigger] self.socket_set_handles@[j]
                        != #[trigger] self.socket_set_handles@[k],
                forall|h: SocketHandle| #[trigger]
                    sockets_of(*socket_set).contains_key(h) <==> before.contains_key(h)
                        || self.socket_set_handles@.skip(n0).contains(h),
                forall|h: SocketHandle|
                    before.contains_key(h) ==> #[trigger] sockets_of(*socket_set)[h] == before[h],
            decreases backlog - self.socket_set_handles.len(),
        {
            let ghost mid = sockets_of(*socket_set);
            let ghost listed = self.socket_set_handles@;
            let handle = sockets::add_tcp(socket_set, SOCKET_BUFFER_SIZE);
            sockets::tcp_listen(socket_set, handle, self.ip_listen_endpoint);
            self.socket_set_handles.push(handle);
            proof {
                let now = self.socket_set_handles@;
                assert(now =~= listed.push(handle));
                assert(now.take(n0) =~= listed.take(n0));
                assert(now.skip(n0) =~= listed.skip(n0).push(handle));
                assert forall|k: int| n0 <= k < listed.len() implies listed[k] != handle by {
                    assert(mid.contains_key(listed[k]));
                }
                let after = sockets_of(*socket_set);
                assert forall|h: SocketHandle| #[trigger] after.contains_key(h)
                    <==> before.contains_key(h) || now.skip(n0).contains(h) by {
                    if listed.skip(n0).contains(h) {
                        let j = choose|j: int|
                            0 <= j < listed.skip(n0).len() && listed.skip(n0)[j] == h;
                        assert(now.skip(n0)[j] == h);
                    }
                    if now.skip(n0).contains(h) && h != handle {
                        let j = choose|j: int| 0 <= j < now.skip(n0).len() && now.skip(n0)[j] == h;
                        assert(listed.skip(n0)[j] == h);
                    }
                    assert(now.skip(n0)[listed.len() - n0] == handle);
                    assert(after.contains_key(h) <==> mid.contains_key(h) || h == handle);
                }
            }
        }
    }
}

/// The owners after a backlog has been filled.
spec fn refilled_owners(
    owners: Map<SocketHandle, SocketOwner>,
    fresh: Seq<SocketHandle>,
    i: int,
) -> Map<SocketHandle, SocketOwner> {
    Map::new(
        |h: SocketHandle| owners.contains_key(h) || fresh.contains(h),
        |h: SocketHandle|
            if fresh.contains(h) {
                SocketOwner::Backlog(i)
            } else {
                owners[h]
            },
    )
}

/// Filling the backlog of a descriptor keeps the network valid.
proof fn lemma_refill(
    st: NetState,
    owners: Map<SocketHandle, SocketOwner>,
    i: int,
    server: ServerView,
    st2: NetState,
    server2: ServerView,
) -> (owners2: Map<SocketHandle, SocketOwner>)
    requires
        is_valid_network(st, owners),
        st.is_tcp_fd(i),
        server.endpoint.port != 0,
        server.handles.no_duplicates(),
        forall|k: int|
            0 <= k < server.handles.len() ==> is_tcp(st.sockets, #[trigger] server.handles[k])
                && is_owned(st.sockets, owners, server.handles[k], SocketOwner::Backlog(i)),
        refills(st.sockets, server, st2.sockets, server2),
        st2.is_tcp_fd(i),
        st2.entries =~= st.entries.update(i, st2.entries[i]),
        st2.closing == st.closing,
        st2.entry(i).handle == st.entry(i).handle,
        st2.tcp(i).server == Some(server2),
        st2.tcp(i).connect_initiated_at == st.tcp(i).connect_initiated_at,
        local_ports::are_port_counts(st2.ports),
        forall|p: u16|
            #![trigger port_count(st2.ports, p)]
            port_count(st2.ports, p) + uses_port(st.sockets, st.entries[i], p) >= port_count(
                st.ports,
                p,
            ) + uses_port(st2.sockets, st2.entries[i], p),
    ensures
        is_valid_network(st2, owners2),
        forall|h: SocketHandle|
            st.sockets.contains_key(h) && owners.contains_key(h) ==> #[trigger] owners2.contains_key(
                h,
            ) && owners2[h] == owners[h],
{
    let had = server.handles;
    let has = server2.handles;
    let n0 = had.len() as int;
    let fresh = has.skip(n0);
    let owners2 = refilled_owners(owners, fresh, i);
    assert(is_valid_entry(st.sockets, owners, i, st.entry(i)));
    assert forall|h: SocketHandle| fresh.contains(h) implies !st.sockets.contains_key(h)
        && st2.sockets.contains_key(h) by {
        let k = choose|k: int| 0 <= k < fresh.len() && fresh[k] == h;
        assert(has[n0 + k] == h);
    }
    assert forall|k: int| 0 <= k < n0 implies #[trigger] has[k] == had[k] by {
        assert(has.take(n0)[k] == had[k]);
    }
    assert forall|k: int| 0 <= k < has.len() implies is_tcp(st2.sockets, #[trigger] has[k])
        && is_owned(st2.sockets, owners2, has[k], SocketOwner::Backlog(i)) by {
        if k < n0 {
            assert(is_tcp(st.sockets, had[k]));
            assert(st2.sockets[had[k]] == st.sockets[had[k]]);
            assert(st2.sockets.contains_key(had[k]));
        } else {
            assert(fresh[k - n0] == has[k]);
            assert(fresh.contains(has[k]));
        }
    }
    assert(has.no_duplicates()) by {
        assert forall|j: int, k: int| 0 <= j < has.len() && 0 <= k < has.len() && j != k implies has[j]
            != has[k] by {
            if j < n0 && k < n0 {
                assert(had[j] != had[k]);
            } else if j < n0 {
                assert(is_tcp(st.sockets, had[j]));
                assert(!st.sockets.contains_key(has[k]));
            } else if k < n0 {
                assert(is_tcp(st.sockets, had[k]));
                assert(!st.sockets.contains_key(has[j]));
            }
        }
    }
    let e = st.entry(i).handle;
    assert(st2.sockets[e] == st.sockets[e] && st2.sockets.contains_key(e));
    assert(!fresh.contains(e));
    // A socket that was not there before has no use that counts, whatever owner is noted for it.
    let noted = Map::new(
        |h: SocketHandle| owners.contains_key(h) && st.sockets.contains_key(h),
        |h: SocketHandle| owners[h],
    );
    assert(is_valid_network(st, noted)) by {
        assert forall|j: int| #[trigger] st.is_live(j) implies is_valid_entry(
            st.sockets,
            noted,
            j,
            st.entry(j),
        ) by {
            assert(is_valid_entry(st.sockets, owners, j, st.entry(j)));
        }
    }
    assert(keeps_other_owners(noted, owners2, i)) by {
        assert forall|h: SocketHandle|
            noted.contains_key(h) && noted[h] != SocketOwner::Descriptor(i) && noted[h]
                != SocketOwner::Backlog(i) implies #[trigger] owners2.contains_key(h) && owners2[h]
            == noted[h] by {
            assert(!fresh.contains(h));
        }
    }
    lemma_change_one(st, noted, st2, owners2, i);
    owners2
}

/// The network in which a TCP socket has been given a port to listen on, if it had none.
pub open spec fn listen_bound(st: NetState, i: int, port: u16) -> NetState {
    tcp_bound(st, i, 0, port)
}

/// The backlog that is granted.
pub open spec fn capped_backlog(backlog: u16) -> u16 {
    if backlog < MAX_BACKLOG {
        backlog
    } else {
        MAX_BACKLOG
    }
}

/// What listening does, once the socket has an endpoint.
pub open spec fn listens_bound(
    st: NetState,
    i: int,
    backlog: u16,
    after: NetState,
    r: Result<(), ListenError>,
) -> bool {
    let server = st.tcp(i).server->Some_0;
    if server.endpoint.port == 0 {
        after == st && r is Err && r->Err_0 == ListenError::InvalidAddress
    } else {
        let wanted = ServerView { backlog: Some(capped_backlog(backlog)), ..server };
        &&& r == Ok::<(), ListenError>(())
        &&& exists|filled: ServerView| #[trigger]
            refills(st.sockets, wanted, after.sockets, filled) && after == (NetState {
                sockets: after.sockets,
                ..st.with_tcp_specific(
                    i,
                    TcpSpecificView { server: Some(filled), ..st.tcp(i) },
                ).with_proxy_state(i, SocketState::Listening)
            })
    }
}

/// What listening does.
pub open spec fn listens(
    st: NetState,
    i: int,
    backlog: u16,
    after: NetState,
    r: Result<(), ListenError>,
) -> bool {
    if !st.is_live(i) {
        after == st && r is Err && r->Err_0 == ListenError::InvalidFd
    } else if st.tcp(i).server is Some {
        listens_bound(st, i, backlog, after, r)
    } else if !can_allocate(st.ports, 0) {
        after == st && r is Err && r->Err_0 == ListenError::NoAvailableFreeEphemeralPorts
    } else {
        exists|port: u16| #[trigger]
            may_get_port(st.ports, 0, port) && listens_bound(
                listen_bound(st, i, port),
                i,
                backlog,
                after,
                r,
            )
    }
}

impl Network {
    /// Prepare a socket to accept incoming connections. Marks the socket as a passive socket, such
    /// that it will be used to accept new connection requests via [`accept`](Self::accept). Only
    /// TCP sockets can listen, with a positive backlog, and once.
    ///
    /// The `backlog` argument defines the maximum length to which the queue of pending connections
    /// the `fd` may grow. It is silently capped.
    pub fn listen(&mut self, fd: &SocketFd, backlog: u16) -> (r: Result<(), ListenError>)
        requires
            old(self).wf(),
            can_listen(old(self).state(), fd.number(), backlog),
        ensures
            final(self).wf(),
            final(self).interaction() == old(self).interaction(),
            listens(old(self).state(), fd.number(), backlog, final(self).state(), r),
    {
        if !self.is_open(fd) {
            return Err(ListenError::InvalidFd);
        }
        let ghost asked = backlog;
        // This prevents users from overloading things too badly. Incoming packets are dispatched
        // to sockets by a linear search, so a large backlog would be slow.
        let backlog: u16 = if backlog < MAX_BACKLOG {
            backlog
        } else {
            MAX_BACKLOG
        };
        let i: usize = fd.index;
        let ghost k = i as int;
        let ghost st0 = self.state();
        let ghost mut chosen: u16 = 0;
        if !self.is_server(i) {
            assert(is_valid_entry(st0.sockets, self.owners@, k, st0.entry(k)));
            assert(st0.entries[k] == entry_view(self.entries@[k]));
            let local_port = match self.local_port_allocator.ephemeral_port() {
                Ok(p) => p,
                Err(_) => {
                    return Err(ListenError::NoAvailableFreeEphemeralPorts);
                },
            };
            let port: u16 = local_port.port();
            assert(may_get_port(st0.ports, 0, port));
            proof {
                chosen = port;
            }
            if let Some(entry) = &mut self.entries[i] {
                if let ProtocolSpecific::Tcp(t) = &mut entry.specific {
                    t.local_port = Some(local_port);
                    t.server_socket = Some(
                        TcpServerSpecific {
                            ip_listen_endpoint: ListenEndpoint { addr: Some(0), port },
                            backlog: None,
                            socket_set_handles: Vec::new(),
                        },
                    );
                }
            }
            proof {
                let bound = tcp_bound(st0, k, 0, port);
                assert(self.state().entries[k] is Some);
                assert(self.state().tcp(k).server->Some_0 =~= bound.tcp(k).server->Some_0);
                assert(self.state().tcp(k) =~= bound.tcp(k));
                assert(self.state().entries =~= bound.entries);
                assert(self.state() =~= bound);
                lemma_change_one(st0, self.owners@, self.state(), self.owners@, k);
            }
        }
        let ghost st = self.state();
        let ghost server = st.tcp(k).server->Some_0;
        assert(is_valid_entry(st.sockets, self.owners@, k, st.entry(k)));
        assert(st.entries[k] == entry_view(self.entries@[k]));
        let mut addressable = true;
        let ghost mut filled = server;
        if let Some(entry) = &mut self.entries[i] {
            if let ProtocolSpecific::Tcp(t) = &mut entry.specific {
                if let Some(server_socket) = &mut t.server_socket {
                    if server_socket.ip_listen_endpoint.port == 0 {
                        addressable = false;
                    } else {
                        server_socket.backlog = Some(backlog);
                        server_socket.refill_to_backlog(&mut self.socket_set);
                        proof {
                            filled = server_socket@;
                        }
                    }
                }
            }
        }
        if !addressable {
            assert(self.state() =~= st);
            assert(st0.tcp(k).server is Some);
            return Err(ListenError::InvalidAddress);
        }
        let ghost wanted = ServerView { backlog: Some(backlog), ..server };
        let ghost listening = NetState {
            sockets: sockets_of(self.socket_set),
            ..st.with_tcp_specific(k, TcpSpecificView { server: Some(filled), ..st.tcp(k) })
        };
        proof {
            assert(refills(st.sockets, wanted, sockets_of(self.socket_set), filled));
            assert(self.state().entries =~= listening.entries);
            assert(self.state() =~= listening);
            self.owners@ = lemma_refill(st, self.owners@, k, wanted, listening, filled);
        }
        self.set_proxy_state(i, SocketState::Listening);
        proof {
            let specific = TcpSpecificView { server: Some(filled), ..st.tcp(k) };
            assert(self.state() =~= (NetState {
                sockets: self.state().sockets,
                ..st.with_tcp_specific(k, specific).with_proxy_state(k, SocketState::Listening)
            }));
            assert(listens_bound(st, k, asked, self.state(), Ok(())));
            if st0.tcp(k).server is None {
                assert(may_get_port(st0.ports, 0, chosen));
                assert(st == listen_bound(st0, k, chosen));
            }
        }
        Ok(())
    }
}

/// Whether a socket of a backlog is open.
pub open spec fn is_open_in(sockets: Map<SocketHandle, SocketView>) -> spec_fn(SocketHandle) -> bool {
    |h: SocketHandle| tcp_at(sockets, h).state.is_open()
}

/// Whether a socket of a backlog is connected.
pub open spec fn is_established(sockets: Map<SocketHandle, SocketView>, h: SocketHandle) -> bool {
    tcp_at(sockets, h).state is Established
}

/// Whether `p` is the first position of a connected socket.
pub open spec fn is_first_ready(
    sockets: Map<SocketHandle, SocketView>,
    handles: Seq<SocketHandle>,
    p: int,
) -> bool {
    &&& 0 <= p < handles.len()
    &&& is_established(sockets, handles[p])
    &&& forall|j: int| 0 <= j < p ==> !is_established(sockets, #[trigger] handles[j])
}

/// A list without the element at a position, whose place the last element takes.
pub open spec fn swap_removed(handles: Seq<SocketHandle>, p: int) -> Seq<SocketHandle> {
    handles.update(p, handles.last()).drop_last()
}

/// The counts after one more use of a port.
pub open spec fn port_shared(ports: Map<u16, u16>, port: Option<u16>) -> Map<u16, u16> {
    match port {
        Some(p) => ports.insert(p, (ports[p] + 1) as u16),
        None => ports,
    }
}

/// The network after the connection at position `p` of the open sockets has been taken out of a
/// backlog, which has been filled again.
pub open spec fn accepted_state(
    st: NetState,
    i: int,
    ready: SocketHandle,
    filled: ServerView,
    sockets: Map<SocketHandle, SocketView>,
) -> NetState {
    let t = st.tcp(i);
    let taken = st.with_tcp_specific(
        i,
        TcpSpecificView { server: Some(filled), ..t },
    ).with_proxy_readable(i, false);
    NetState {
        sockets,
        ports: port_shared(st.ports, t.local_port),
        ..taken.with_new(
            fresh_entry(
                ready,
                SpecificView::Tcp(TcpSpecificView { local_port: t.local_port, ..fresh_tcp() }),
            ),
        )
    }
}

/// What accepting a connection does.
pub open spec fn accepts(
    st: NetState,
    i: int,
    after: NetState,
    r: Result<SocketFd, AcceptError>,
) -> bool {
    if !st.is_live(i) {
        after == st && r is Err && r->Err_0 == AcceptError::InvalidFd
    } else if st.tcp(i).server is None || st.tcp(i).server->Some_0.backlog is None {
        after == st && r is Err && r->Err_0 == AcceptError::NotListening
    } else {
        let server = st.tcp(i).server->Some_0;
        let open = server.handles.filter(is_open_in(st.sockets));
        match r {
            Err(e) => {
                &&& e == AcceptError::NoConnectionsReady
                &&& forall|j: int|
                    0 <= j < open.len() ==> !is_established(st.sockets, #[trigger] open[j])
                &&& after == st.with_tcp_specific(
                    i,
                    TcpSpecificView {
                        server: Some(ServerView { handles: open, ..server }),
                        ..st.tcp(i)
                    },
                ).with_proxy_readable(i, false)
            },
            Ok(fd) => {
                &&& fd.number() == st.entries.len()
                &&& exists|p: int, filled: ServerView| #[trigger]
                    is_first_ready(st.sockets, open, p) && #[trigger] refills(
                        st.sockets,
                        ServerView { handles: swap_removed(open, p), ..server },
                        after.sockets,
                        filled,
                    ) && after == accepted_state(st, i, open[p], filled, after.sockets)
            },
        }
    }
}

pub(crate) proof fn lemma_filter_is_subset(
    s: Seq<SocketHandle>,
    keep: spec_fn(SocketHandle) -> bool,
)
    ensures
        forall|k: int|
            0 <= k < s.filter(keep).len() ==> s.contains(#[trigger] s.filter(keep)[k]) && keep(
                s.filter(keep)[k],
            ),
        forall|h: SocketHandle| #[trigger] s.contains(h) && keep(h) ==> s.filter(keep).contains(h),
        s.no_duplicates() ==> s.filter(keep).no_duplicates(),
    decreases s.len(),
{
    reveal(Seq::filter);
    if s.len() > 0 {
        let head = s.drop_last();
        lemma_filter_is_subset(head, keep);
        assert forall|k: int| 0 <= k < s.filter(keep).len() implies s.contains(
            #[trigger] s.filter(keep)[k],
        ) && keep(s.filter(keep)[k]) by {
            let h = s.filter(keep)[k];
            if k < head.filter(keep).len() {
                assert(head.filter(keep)[k] == h);
                assert(head.contains(h));
                let j = choose|j: int| 0 <= j < head.len() && head[j] == h;
                assert(s[j] == h);
            } else {
                assert(h == s.last());
                assert(s[s.len() - 1] == h);
            }
        }
        assert forall|h: SocketHandle| #[trigger] s.contains(h) && keep(h) implies s.filter(
            keep,
        ).contains(h) by {
            let j = choose|j: int| 0 <= j < s.len() && s[j] == h;
            if j < head.len() {
                assert(head[j] == h);
                assert(head.contains(h));
                assert(head.filter(keep).contains(h));
                let k = choose|k: int|
                    0 <= k < head.filter(keep).len() && head.filter(keep)[k] == h;
                assert(s.filter(keep)[k] == h);
            } else {
                assert(s.filter(keep)[s.filter(keep).len() - 1] == h);
            }
        }
        if s.no_duplicates() {
            assert(head.no_duplicates());
            let f = head.filter(keep);
            assert forall|a: int, b: int|
                0 <= a < s.filter(keep).len() && 0 <= b < s.filter(keep).len() && a
                    != b implies s.filter(keep)[a] != s.filter(keep)[b] by {
                let last = s.last();
                if keep(last) {
                    assert forall|k: int| 0 <= k < f.len() implies f[k] != last by {
                        assert(head.contains(f[k]));
                        let j = choose|j: int| 0 <= j < head.len() && head[j] == f[k];
                        assert(s[j] != s[s.len() - 1]);
                    }
                }
            }
        }
    }
}

impl Network {
    /// Accept a new incoming connection on a listening socket. Only TCP sockets can accept.
    ///
    /// If `peer` is provided, it is filled with the remote address of the accepted connection.
    ///
    /// Note that the returned new socket has no associated proxy; to set a proxy, use
    /// [`set_socket_proxy`](Self::set_socket_proxy).
    pub fn accept(&mut self, fd: &SocketFd, peer: Option<&mut SocketAddr>) -> (r: Result<
        SocketFd,
        AcceptError,
    >)
        requires
            old(self).wf(),
            can_accept(old(self).state(), fd.number()),
        ensures
            final(self).wf(),
            final(self).interaction() == old(self).interaction(),
            accepts(old(self).state(), fd.number(), final(self).state(), r),
            match peer {
                Some(p) => *final(p) == if r is Ok {
                    match remote_addr(final(self).state(), r->Ok_0.number()) {
                        Ok(addr) => addr,
                        Err(_) => *p,
                    }
                } else {
                    *p
                },
                None => true,
            },
    {
        if !self.is_open(fd) {
            return Err(AcceptError::InvalidFd);
        }
        let i: usize = fd.index;
        let ghost k = i as int;
        let ghost st = self.state();
        let ghost owners = self.owners@;
        assert(is_valid_entry(st.sockets, owners, k, st.entry(k)));
        assert(st.entries[k] == entry_view(self.entries@[k]));
        if !self.is_listening(i) {
            return Err(AcceptError::NotListening);
        }
        let ghost server = st.tcp(k).server->Some_0;
        let ghost open = server.handles.filter(is_open_in(st.sockets));
        // (Purely an optimization) remove all handles that are closed, by only keeping ones that
        // are not closed
        let handles = self.open_backlog(i);
        proof {
            lemma_filter_is_subset(server.handles, is_open_in(st.sockets));
            assert forall|j: int| 0 <= j < open.len() implies is_tcp(
                st.sockets,
                #[trigger] open[j],
            ) && is_owned(st.sockets, owners, open[j], SocketOwner::Backlog(k)) by {
                assert(server.handles.contains(open[j]));
                let a = choose|a: int|
                    0 <= a < server.handles.len() && server.handles[a] == open[j];
                assert(is_tcp(st.sockets, server.handles[a]));
            }
        }
        // Find a socket that has progressed further in its TCP state machine, by finding a socket
        // in an established state
        let mut position: usize = 0;
        while position < handles.len() && sockets::tcp_state(&self.socket_set, handles[position])
            != TcpState::Established
            invariant
                position <= handles.len(),
                handles@ == open,
                sockets_of(self.socket_set) == st.sockets,
                forall|j: int| 0 <= j < open.len() ==> is_tcp(st.sockets, #[trigger] open[j]),
                forall|j: int|
                    0 <= j < position ==> !is_established(st.sockets, #[trigger] open[j]),
            decreases handles.len() - position,
        {
            position = position + 1;
        }
        let found = position < handles.len();
        let mut handles = handles;
        let ghost p = position as int;
        let ready_handle = if found {
            // Pull that position out of the listening handles
            Some(handles.swap_remove(position))
        } else {
            None
        };
        let ghost kept = handles@;
        assert(found ==> kept =~= swap_removed(open, p));
        let ghost mut filled = ServerView { handles: kept, ..server };
        if let Some(entry) = &mut self.entries[i] {
            if let Some(proxy) = &mut entry.proxy {
                // reset the readable flag so that we send one event per accepted connection
                proxy.set_readable(false);
            }
            if let ProtocolSpecific::Tcp(t) = &mut entry.specific {
                if let Some(server_socket) = &mut t.server_socket {
                    server_socket.socket_set_handles = handles;
                    if found {
                        // Refill to the backlog, so that we can have more listening sockets again
                        // if needed
                        server_socket.refill_to_backlog(&mut self.socket_set);
                    }
                    proof {
                        filled = server_socket@;
                    }
                }
            }
        }
        let ghost wanted = ServerView { handles: kept, ..server };
        let ghost mid = NetState {
            sockets: sockets_of(self.socket_set),
            ..st.with_tcp_specific(
                k,
                TcpSpecificView { server: Some(filled), ..st.tcp(k) },
            ).with_proxy_readable(k, false)
        };
        assert(self.state().entries =~= mid.entries);
        assert(self.state() =~= mid);
        let ready_handle = match ready_handle {
            None => {
                proof {
                    assert(filled == wanted);
                    assert(mid.sockets == st.sockets);
                    lemma_change_one(st, owners, mid, owners, k);
                }
                return Err(AcceptError::NoConnectionsReady);
            },
            Some(h) => h,
        };
        proof {
            assert(refills(st.sockets, wanted, mid.sockets, filled));
            assert forall|j: int| 0 <= j < kept.len() implies is_tcp(
                st.sockets,
                #[trigger] kept[j],
            ) && is_owned(st.sockets, owners, kept[j], SocketOwner::Backlog(k)) by {
                assert(kept[j] == open[if j == p {
                    open.len() - 1
                } else {
                    j
                }]);
            }
            assert(kept.no_duplicates()) by {
                assert forall|a: int, b: int|
                    0 <= a < kept.len() && 0 <= b < kept.len() && a != b implies kept[a] != kept[b] by {
                    let x = if a == p {
                        open.len() - 1
                    } else {
                        a
                    };
                    let y = if b == p {
                        open.len() - 1
                    } else {
                        b
                    };
                    assert(open[x] != open[y]);
                }
            }
            assert(!kept.contains(ready_handle)) by {
                if kept.contains(ready_handle) {
                    let a = choose|a: int| 0 <= a < kept.len() && kept[a] == ready_handle;
                    let x = if a == p {
                        open.len() - 1
                    } else {
                        a
                    };
                    assert(open[x] != open[p]);
                }
            }
            self.owners@ = lemma_refill(st, owners, k, wanted, mid, filled);
        }
        let ghost owners2 = self.owners@;
        // Grab the local port again, so we can put it into the new socket
        let local_port = self.share_local_port(i);
        let ghost shared = NetState { ports: port_shared(st.ports, st.tcp(k).local_port), ..mid };
        assert(self.state() =~= shared);
        let specific = ProtocolSpecific::Tcp(
            TcpSpecific {
                local_port,
                server_socket: None,
                immediate_close: false,
                connect_initiated_at_us: None,
            },
        );
        if let Some(peer) = peer {
            if let Some(remote) = sockets::tcp_remote_endpoint(&self.socket_set, ready_handle) {
                *peer = SocketAddr::V4(remote);
            }
        }
        // Create a new FD to hand it back out to the user
        let new_fd = self.new_socket_fd_for(
            SocketEntry { consider_closed: false, handle: ready_handle, specific, proxy: None },
        );
        proof {
            let n = st.entries.len() as int;
            let after = accepted_state(st, k, ready_handle, filled, mid.sockets);
            assert(self.state() =~= after);
            let owners3 = owners2.insert(ready_handle, SocketOwner::Descriptor(n));
            assert(is_tcp(st.sockets, open[p]) && open[p] == ready_handle);
            assert(owners2.contains_key(ready_handle));
            assert(owners2[ready_handle] == SocketOwner::Backlog(k));
            assert forall|h: SocketHandle| #[trigger]
                owners3.contains_key(h) && owners3[h] == SocketOwner::Descriptor(n) implies !used_by(
                mid,
                h,
            ) by {
                if used_by(mid, h) {
                    lemma_used_is_there(mid, owners2, h);
                    assert(owners2[h] == owners3[h] || h == ready_handle);
                    if h == ready_handle {
                        assert(!in_backlog(mid, k, h)) by {
                            let has = filled.handles;
                            if has.contains(h) {
                                let a = choose|a: int| 0 <= a < has.len() && has[a] == h;
                                if a < kept.len() {
                                    assert(has.take(kept.len() as int)[a] == kept[a]);
                                    assert(kept.contains(h));
                                } else {
                                    assert(!st.sockets.contains_key(has[a]));
                                }
                            }
                        }
                    }
                }
            }
            assert(st.sockets.contains_key(ready_handle));
            assert(mid.sockets[ready_handle] == st.sockets[ready_handle]);
            lemma_port_is_shared(mid, owners2, k);
            self.owners@ = owners3;
            lemma_add_one(mid, owners2, after, owners3);
            assert(is_first_ready(st.sockets, open, p));
            assert(wanted == (ServerView { handles: swap_removed(open, p), ..server }));
        }
        Ok(new_fd)
    }

    /// Whether a TCP socket is listening.
    fn is_listening(&self, i: usize) -> (r: bool)
        requires
            self.state().is_tcp_fd(i as int),
        ensures
            r == (self.state().tcp(i as int).server is Some && self.state().tcp(
                i as int,
            ).server->Some_0.backlog is Some),
    {
        assert(self.state().entries[i as int] == entry_view(self.entries@[i as int]));
        match &self.entries[i] {
            Some(entry) => match &entry.specific {
                ProtocolSpecific::Tcp(t) => match &t.server_socket {
                    Some(server) => server.backlog.is_some(),
                    None => false,
                },
                ProtocolSpecific::Udp(_) => false,
            },
            None => false,
        }
    }

    /// The sockets of a backlog that are open.
    fn open_backlog(&self, i: usize) -> (r: Vec<SocketHandle>)
        requires
            self.wf(),
            self.state().is_tcp_fd(i as int),
            self.state().tcp(i as int).server is Some,
        ensures
            r@ == self.state().tcp(i as int).server->Some_0.handles.filter(
                is_open_in(self.state().sockets),
            ),
    {
        let ghost st = self.state();
        let ghost k = i as int;
        assert(is_valid_entry(st.sockets, self.owners@, k, st.entry(k)));
        assert(st.entries[k] == entry_view(self.entries@[k]));
        let ghost keep = is_open_in(st.sockets);
        let ghost all = st.tcp(k).server->Some_0.handles;
        let mut open: Vec<SocketHandle> = Vec::new();
        if let Some(entry) = &self.entries[i] {
            if let ProtocolSpecific::Tcp(t) = &entry.specific {
                if let Some(server) = &t.server_socket {
                    let mut j: usize = 0;
                    proof {
                        reveal(Seq::filter);
                        assert(all.take(0).filter(keep) =~= Seq::empty());
                    }
                    while j < server.socket_set_handles.len()
                        invariant
                            j <= server.socket_set_handles.len(),
                            server.socket_set_handles@ == all,
                            sockets_of(self.socket_set) == st.sockets,
                            keep == is_open_in(st.sockets),
                            forall|a: int|
                                0 <= a < all.len() ==> is_tcp(st.sockets, #[trigger] all[a]),
                            open@ == all.take(j as int).filter(keep),
                        decreases server.socket_set_handles.len() - j,
                    {
                        let h = server.socket_set_handles[j];
                        proof {
                            reveal(Seq::filter);
                            assert(all.take(j + 1).drop_last() =~= all.take(j as int));
                        }
                        if sockets::tcp_is_open(&self.socket_set, h) {
                            open.push(h);
                        }
                        j = j + 1;
                    }
                    assert(all.take(j as int) =~= all);
                }
            }
        }
        open
    }

    /// One more token for the local port of a TCP socket, if it has one.
    fn share_local_port(&mut self, i: usize) -> (r: Option<LocalPort>)
        requires
            old(self).wf(),
            old(self).state().is_tcp_fd(i as int),
            old(self).state().tcp(i as int).local_port is Some ==> port_count(
                old(self).state().ports,
                old(self).state().tcp(i as int).local_port->Some_0,
            ) < u16::MAX,
        ensures
            final(self).interaction() == old(self).interaction(),
            r is Some <==> old(self).state().tcp(i as int).local_port is Some,
            r is Some ==> r->Some_0.number() == old(self).state().tcp(
                i as int,
            ).local_port->Some_0,
            final(self).state() == (NetState {
                ports: port_shared(
                    old(self).state().ports,
                    old(self).state().tcp(i as int).local_port,
                ),
                ..old(self).state()
            }),
            local_ports::are_port_counts(final(self).state().ports),
            final(self).entries == old(self).entries,
            final(self).owners == old(self).owners,
            final(self).socket_set == old(self).socket_set,
    {
        let ghost st = self.state();
        let ghost k = i as int;
        assert(st.entries[k] == entry_view(self.entries@[k]));
        proof {
            if st.tcp(k).local_port is Some {
                lemma_used_port_is_allocated(
                    st.sockets,
                    st.entries,
                    k,
                    st.tcp(k).local_port->Some_0,
                );
            }
        }
        let shared = match &self.entries[i] {
            Some(entry) => match &entry.specific {
                ProtocolSpecific::Tcp(t) => match &t.local_port {
                    Some(lp) => Some(self.local_port_allocator.allocate_same_local_port(lp)),
                    None => None,
                },
                ProtocolSpecific::Udp(_) => None,
            },
            None => None,
        };
        assert(self.state() =~= (NetState {
            ports: port_shared(st.ports, st.tcp(k).local_port),
            ..st
        }));
        shared
    }
}

/// The port of a socket is allocated, so it can be shared.
proof fn lemma_port_is_shared(st: NetState, owners: Map<SocketHandle, SocketOwner>, i: int)
    requires
        is_valid_network(st, owners),
        st.is_tcp_fd(i),
        st.tcp(i).local_port is Some ==> port_count(st.ports, st.tcp(i).local_port->Some_0)
            < u16::MAX,
    ensures
        forall|p: u16|
            #![trigger port_count(port_shared(st.ports, st.tcp(i).local_port), p)]
            port_count(port_shared(st.ports, st.tcp(i).local_port), p) == port_count(st.ports, p)
                + if st.tcp(i).local_port == Some(p) {
                1nat
            } else {
                0
            },
{
    if st.tcp(i).local_port is Some {
        let p = st.tcp(i).local_port->Some_0;
        lemma_used_port_is_allocated(st.sockets, st.entries, i, p);
        assert(port_users(st.sockets, st.entries, p) <= port_count(st.ports, p));
    }
}

/// The sockets without those of a list.
pub open spec fn without_sockets(
    sockets: Map<SocketHandle, SocketView>,
    handles: Seq<SocketHandle>,
) -> Map<SocketHandle, SocketView> {
    Map::new(
        |h: SocketHandle| sockets.contains_key(h) && !handles.contains(h),
        |h: SocketHandle| sockets[h],
    )
}

/// Whether a socket has accepted data that has not been sent.
pub open spec fn has_unsent_data(st: NetState, i: int) -> bool {
    match st.entry(i).specific {
        SpecificView::Tcp(_) => st.tcp_socket(i).state.may_send() && st.tcp_socket(i).tx.len() > 0,
        SpecificView::Udp(_) => st.udp_socket(i).endpoint.port != 0 && st.udp_socket(i).tx_bytes > 0,
    }
}

/// Whether data of a descriptor waits to be sent, in its proxy or in its socket.
pub open spec fn has_pending_data(st: NetState, i: int) -> bool {
    ||| st.entry(i).proxy is Some && st.entry(i).proxy->Some_0.has_pending_tx()
    ||| has_unsent_data(st, i)
}

/// Whether a descriptor can be closed at once.
pub open spec fn may_close(st: NetState, i: int, behavior: CloseBehavior) -> bool {
    st.is_live(i) && !(behavior is GracefulIfNoPendingData && has_pending_data(st, i))
}

/// The sockets of the backlog of a TCP descriptor.
pub open spec fn backlog_of(t: TcpSpecificView) -> Seq<SocketHandle> {
    match t.server {
        Some(server) => server.handles,
        None => Seq::empty(),
    }
}

/// The network after a descriptor has been closed: a UDP socket is gone, and so is the backlog of
/// a TCP socket, which itself goes on closing in the background.
pub open spec fn closed_state(st: NetState, i: int, abort: bool) -> NetState {
    let e = st.entry(i);
    let left = NetState { entries: st.entries.update(i, None), ..st };
    match e.specific {
        SpecificView::Udp(_) => {
            let port = st.udp_socket(i).endpoint.port;
            NetState {
                sockets: st.sockets.remove(e.handle),
                ports: if port != 0 {
                    local_ports::released(st.ports, port)
                } else {
                    st.ports
                },
                ..left
            }
        },
        SpecificView::Tcp(t) => {
            let v = st.tcp_socket(i);
            NetState {
                sockets: with_tcp(
                    without_sockets(st.sockets, backlog_of(t)),
                    e.handle,
                    TcpView {
                        state: if abort {
                            TcpState::Closed
                        } else {
                            v.state.closed()
                        },
                        ..v
                    },
                ),
                ports: match t.local_port {
                    Some(port) => local_ports::released(st.ports, port),
                    None => st.ports,
                },
                closing: st.closing.push(e.handle),
                ..left
            }
        },
    }
}

/// What closing a descriptor does. The proxy of the socket is handed back, closed.
pub open spec fn closes(
    st: NetState,
    i: int,
    behavior: CloseBehavior,
    after: NetState,
    r: Result<Option<NetworkProxy>, CloseError>,
) -> bool {
    if !st.is_live(i) {
        after == st && r is Err && r->Err_0 == CloseError::InvalidFd
    } else if behavior is GracefulIfNoPendingData && has_pending_data(st, i) {
        &&& after == st.with_entry(i, EntryView { consider_closed: true, ..st.entry(i) })
        &&& r is Err
        &&& r->Err_0 == CloseError::DataPending
    } else {
        let abort = behavior is Immediate || (st.is_tcp_fd(i) && st.tcp(i).immediate_close);
        &&& after == closed_state(st, i, abort)
        &&& r is Ok
        &&& r->Ok_0 is Some <==> st.entry(i).proxy is Some
        &&& r->Ok_0 is Some ==> r->Ok_0->Some_0.wf() && r->Ok_0->Some_0@
            == st.entry(i).proxy->Some_0.in_state(SocketState::Closed)
    }
}

/// The network after a descriptor has been closed, in the way that was noted for it.
pub open spec fn closed_entry(st: NetState, i: int) -> NetState {
    closed_state(st, i, st.is_tcp_fd(i) && st.tcp(i).immediate_close)
}

/// The proxy of a descriptor, if it has one, after the descriptor has been closed.
pub open spec fn closed_proxy(st: NetState, i: int) -> Option<ProxyView> {
    match st.entry(i).proxy {
        Some(proxy) => Some(proxy.in_state(SocketState::Closed)),
        None => None,
    }
}

/// The value of a proxy that may be there.
pub open spec fn proxy_view(proxy: Option<NetworkProxy>) -> Option<ProxyView> {
    match proxy {
        Some(proxy) => Some(proxy@),
        None => None,
    }
}

/// The network after it has been noted that a TCP socket is to be aborted when it is closed, if that
/// is so.
pub open spec fn noting_behavior(st: NetState, i: int, behavior: CloseBehavior) -> NetState {
    if st.is_tcp_fd(i) && behavior is Immediate {
        st.with_tcp_specific(i, TcpSpecificView { immediate_close: true, ..st.tcp(i) })
    } else {
        st
    }
}

/// What the table of descriptors did when it was asked to close a descriptor.
#[derive(Clone, Copy, Debug, PartialEq, Eq, Structural)]
pub enum CloseOutcome {
    /// It was the last one for its socket.
    Closed,
    /// There are others for its socket.
    Duplicated,
    /// It was not closed, for data is pending.
    Deferred,
}

/// What going on to close a descriptor does.
pub open spec fn finishes_close(
    st: NetState,
    i: int,
    outcome: CloseOutcome,
    after: NetState,
    r: Result<Option<NetworkProxy>, CloseError>,
) -> bool {
    if !st.is_live(i) {
        after == st && r is Err && r->Err_0 == CloseError::InvalidFd
    } else {
        match outcome {
            CloseOutcome::Closed => {
                &&& after == closed_entry(st, i)
                &&& r is Ok
                &&& proxy_view(r->Ok_0) == closed_proxy(st, i)
                &&& r->Ok_0 is Some ==> r->Ok_0->Some_0.wf()
            },
            CloseOutcome::Duplicated => {
                &&& after == (NetState { queued: st.queued.push(i), ..st })
                &&& r is Ok
                &&& r->Ok_0 is None
            },
            CloseOutcome::Deferred => {
                &&& after == st.with_entry(i, EntryView { consider_closed: true, ..st.entry(i) })
                &&& r is Err
                &&& r->Err_0 == CloseError::DataPending
            },
        }
    }
}

/// The network after the first `n` descriptors that were queued for closure have been closed, if
/// there are no others for their sockets, and the proxies of those that were.
pub open spec fn close_queued(st: NetState, unshared: Seq<int>, n: int) -> (
    NetState,
    Seq<Option<ProxyView>>,
)
    decreases n,
{
    if n <= 0 {
        (NetState { queued: Seq::empty(), ..st }, Seq::empty())
    } else {
        let (before, closed) = close_queued(st, unshared, n - 1);
        let i = st.queued[n - 1];
        if !unshared.contains(i) {
            (NetState { queued: before.queued.push(i), ..before }, closed)
        } else if before.is_live(i) {
            (closed_entry(before, i), closed.push(closed_proxy(before, i)))
        } else {
            (before, closed)
        }
    }
}

/// Whatever is queued for closure, the network is in order.
proof fn lemma_queue_is_free(st: NetState, owners: Map<SocketHandle, SocketOwner>, after: NetState)
    requires
        is_valid_network(st, owners),
        after == (NetState { queued: after.queued, ..st }),
    ensures
        is_valid_network(after, owners),
{
    assert forall|i: int| #[trigger] after.is_live(i) implies is_valid_entry(
        after.sockets,
        owners,
        i,
        after.entry(i),
    ) by {
        assert(st.is_live(i));
    }
}

/// Closing a socket in some way is to note the way, and then to close it.
proof fn lemma_noting_before_closing(st: NetState, i: int, behavior: CloseBehavior)
    requires
        st.is_live(i),
    ensures
        ({
            let noted = noting_behavior(st, i, behavior);
            &&& noted.is_live(i)
            &&& closed_proxy(noted, i) == closed_proxy(st, i)
            &&& closed_entry(noted, i) == closed_state(
                st,
                i,
                behavior is Immediate || (st.is_tcp_fd(i) && st.tcp(i).immediate_close),
            )
        }),
{
    let noted = noting_behavior(st, i, behavior);
    assert(noted.entries.update(i, None) =~= st.entries.update(i, None));
}

/// A descriptor that is closed while there are others for its socket is closed once there are none
/// left, just as it would have been at first.
pub proof fn lemma_shared_socket_is_closed_later(
    st: NetState,
    i: int,
    behavior: CloseBehavior,
    unshared: Seq<int>,
)
    requires
        st.is_live(i),
        st.queued.len() == 0,
        unshared.contains(i),
    ensures
        ({
            let noted = noting_behavior(st, i, behavior);
            let waiting = NetState { queued: noted.queued.push(i), ..noted };
            close_queued(waiting, unshared, 1).0 == closed_state(
                st,
                i,
                behavior is Immediate || (st.is_tcp_fd(i) && st.tcp(i).immediate_close),
            )
        }),
{
    reveal_with_fuel(close_queued, 2);
    let noted = noting_behavior(st, i, behavior);
    let waiting = NetState { queued: noted.queued.push(i), ..noted };
    lemma_noting_before_closing(st, i, behavior);
    assert(noted.queued =~= Seq::<int>::empty());
    assert(close_queued(waiting, unshared, 0).0 =~= noted);
}

/// A closed TCP socket can be noted as closing in the background.
proof fn lemma_note_closing(
    st: NetState,
    owners: Map<SocketHandle, SocketOwner>,
    h: SocketHandle,
    i: int,
)
    requires
        is_valid_network(st, owners),
        is_tcp(st.sockets, h),
        owners.contains_key(h),
        owners[h] == SocketOwner::Descriptor(i),
        !st.is_live(i),
    ensures
        is_valid_network(
            NetState { closing: st.closing.push(h), ..st },
            owners.insert(h, SocketOwner::Closing),
        ),
{
    let st2 = NetState { closing: st.closing.push(h), ..st };
    let owners2 = owners.insert(h, SocketOwner::Closing);
    assert forall|j: int| #[trigger] st2.is_live(j) implies is_valid_entry(
        st2.sockets,
        owners2,
        j,
        st2.entry(j),
    ) by {
        assert(st.is_live(j));
        let e = st.entry(j);
        assert(is_valid_entry(st.sockets, owners, j, e));
        assert(e.handle != h);
        if e.specific is Tcp && e.specific->Tcp_0.server is Some {
            let handles = e.specific->Tcp_0.server->Some_0.handles;
            assert forall|k: int| 0 <= k < handles.len() implies is_tcp(
                st2.sockets,
                #[trigger] handles[k],
            ) && is_owned(st2.sockets, owners2, handles[k], SocketOwner::Backlog(j)) by {
                assert(is_tcp(st.sockets, handles[k]));
            }
        }
    }
    assert forall|k: int| 0 <= k < st2.closing.len() implies is_tcp(
        st2.sockets,
        #[trigger] st2.closing[k],
    ) && is_owned(st2.sockets, owners2, st2.closing[k], SocketOwner::Closing) by {
        if k < st.closing.len() {
            assert(is_tcp(st.sockets, st.closing[k]));
        }
    }
    assert(st2.closing.no_duplicates()) by {
        assert forall|a: int, b: int|
            0 <= a < st2.closing.len() && 0 <= b < st2.closing.len() && a != b implies st2.closing[a]
            != st2.closing[b] by {
            if a < st.closing.len() {
                assert(is_tcp(st.sockets, st.closing[a]));
            }
            if b < st.closing.len() {
                assert(is_tcp(st.sockets, st.closing[b]));
            }
        }
    }
    assert forall|p: u16| #[trigger] port_users(st2.sockets, st2.entries, p) <= port_count(
        st2.ports,
        p,
    ) by {
        assert(port_users(st.sockets, st.entries, p) <= port_count(st.ports, p));
    }
}

/// Giving back a port that is in use leaves one use less.
proof fn lemma_release(ports: Map<u16, u16>, port: u16)
    requires
        local_ports::are_port_counts(ports),
        port_count(ports, port) >= 1,
    ensures
        ports.contains_key(port),
        local_ports::are_port_counts(local_ports::released(ports, port)),
        forall|p: u16|
            #![trigger port_count(local_ports::released(ports, port), p)]
            port_count(local_ports::released(ports, port), p) + (if p == port {
                1nat
            } else {
                0
            }) == port_count(ports, p),
{
}

/// Whether a socket that is closing in the background is gone: closed, with no reset to be sent.
pub open spec fn is_dead_in(sockets: Map<SocketHandle, SocketView>) -> spec_fn(SocketHandle) -> bool {
    |h: SocketHandle| !tcp_at(sockets, h).state.is_open() && tcp_at(sockets, h).ends is None
}

/// Whether a socket that is closing in the background is not gone.
pub open spec fn is_lingering_in(sockets: Map<SocketHandle, SocketView>) -> spec_fn(
    SocketHandle,
) -> bool {
    |h: SocketHandle| !is_dead_in(sockets)(h)
}

/// The network without the sockets that have finished closing.
pub open spec fn without_dead_sockets(st: NetState) -> NetState {
    NetState {
        sockets: without_sockets(st.sockets, st.closing.filter(is_dead_in(st.sockets))),
        closing: st.closing.filter(is_lingering_in(st.sockets)),
        ..st
    }
}

/// The network after a descriptor that is to be closed has been closed, unless data waits to be
/// sent.
pub open spec fn close_if_done(st: NetState, i: int) -> NetState {
    if st.is_live(i) && st.entry(i).consider_closed && !has_pending_data(st, i) {
        let e = st.entry(i);
        let closed = match e.specific {
            SpecificView::Tcp(_) => st.with_tcp_socket(
                i,
                TcpView { state: st.tcp_socket(i).state.closed(), ..st.tcp_socket(i) },
            ),
            SpecificView::Udp(_) => st.with_udp_socket(
                i,
                UdpView::fresh(st.udp_socket(i).tx_capacity),
            ),
        };
        closed.with_entry(i, EntryView { consider_closed: false, ..e })
    } else {
        st
    }
}

/// When the platform is advised to call again.
pub open spec fn advised(
    socket_state_changed: bool,
    timeout: Option<u64>,
) -> PlatformInteractionReinvocationAdvice {
    if socket_state_changed {
        PlatformInteractionReinvocationAdvice::CallAgainImmediately
    } else {
        PlatformInteractionReinvocationAdvice::WaitOnDeviceOrSocketInteraction { timeout }
    }
}

/// The network after the first `n` descriptors have been closed if they are to be.
pub open spec fn close_first_if_done(st: NetState, n: int) -> NetState
    decreases n,
{
    if n <= 0 {
        st
    } else {
        close_if_done(close_first_if_done(st, n - 1), n - 1)
    }
}

impl Network {
    /// Look whether the socket at `fd` can be closed at once, given how it is to be closed. That it
    /// is to be aborted is noted.
    pub fn can_close_now(&mut self, fd: &SocketFd, behavior: CloseBehavior) -> (r: bool)
        requires
            old(self).wf(),
        ensures
            final(self).wf(),
            final(self).interaction() == old(self).interaction(),
            final(self).state() == noting_behavior(old(self).state(), fd.number(), behavior),
            r == may_close(old(self).state(), fd.number(), behavior),
    {
        if !self.is_open(fd) {
            return false;
        }
        let i: usize = fd.index;
        let ghost k = i as int;
        let ghost st = self.state();
        assert(is_valid_entry(st.sockets, self.owners@, k, st.entry(k)));
        assert(st.entries[k] == entry_view(self.entries@[k]));
        assert(has_valid_proxy(self.entries@[k]));
        match behavior {
            CloseBehavior::Immediate => {
                if let Some(entry) = &mut self.entries[i] {
                    if let ProtocolSpecific::Tcp(t) = &mut entry.specific {
                        t.immediate_close = true;
                    }
                }
                proof {
                    let after = noting_behavior(st, k, behavior);
                    assert(self.state().entries =~= after.entries);
                    assert(self.state() =~= after);
                    lemma_change_one(st, self.owners@, after, self.owners@, k);
                }
                true
            },
            CloseBehavior::Graceful => true,
            CloseBehavior::GracefulIfNoPendingData => !self.data_is_pending(i),
        }
    }

    /// Go on closing the socket at `fd`, after the table of descriptors has been asked to close it
    /// and has used [`can_close_now`](Self::can_close_now). The proxy of a socket that is closed,
    /// if it has one, is handed back.
    pub fn finish_close(&mut self, fd: &SocketFd, outcome: CloseOutcome) -> (r: Result<
        Option<NetworkProxy>,
        CloseError,
    >)
        requires
            old(self).wf(),
        ensures
            final(self).wf(),
            final(self).interaction() == old(self).interaction(),
            finishes_close(old(self).state(), fd.number(), outcome, final(self).state(), r),
    {
        if !self.is_open(fd) {
            return Err(CloseError::InvalidFd);
        }
        let i: usize = fd.index;
        let ghost k = i as int;
        let ghost st = self.state();
        assert(is_valid_entry(st.sockets, self.owners@, k, st.entry(k)));
        assert(st.entries[k] == entry_view(self.entries@[k]));
        assert(has_valid_proxy(self.entries@[k]));
        match outcome {
            CloseOutcome::Closed => Ok(self.close_entry(i)),
            CloseOutcome::Duplicated => {
                self.queued_for_closure.push(*fd);
                proof {
                    let after = NetState { queued: st.queued.push(k), ..st };
                    assert(self.state().queued =~= after.queued);
                    assert(self.state() =~= after);
                    lemma_queue_is_free(st, self.owners@, after);
                }
                Ok(None)
            },
            CloseOutcome::Deferred => {
                if let Some(entry) = &mut self.entries[i] {
                    entry.consider_closed = true;
                }
                proof {
                    let after = st.with_entry(k, EntryView { consider_closed: true, ..st.entry(k) });
                    assert(self.state().entries =~= after.entries);
                    assert(self.state() =~= after);
                    lemma_change_one(st, self.owners@, after, self.owners@, k);
                }
                Err(CloseError::DataPending)
            },
        }
    }

    /// Close what belongs to a descriptor that is in use.
    fn close_entry(&mut self, i: usize) -> (r: Option<NetworkProxy>)
        requires
            old(self).wf(),
            old(self).state().is_live(i as int),
        ensures
            final(self).wf(),
            final(self).interaction() == old(self).interaction(),
            final(self).state() == closed_entry(old(self).state(), i as int),
            proxy_view(r) == closed_proxy(old(self).state(), i as int),
            r is Some ==> r->Some_0.wf(),
    {
        let ghost k = i as int;
        let ghost st = self.state();
        assert(is_valid_entry(st.sockets, self.owners@, k, st.entry(k)));
        assert(st.entries[k] == entry_view(self.entries@[k]));
        assert(has_valid_proxy(self.entries@[k]));
        let taken = self.entries[i].take();
        match taken {
            Some(entry) => {
                assert(self.state() =~= (NetState { entries: st.entries.update(k, None), ..st }));
                self.close_handle(entry, Ghost(k), Ghost(st))
            },
            None => None,
        }
    }

    /// Attempt to close as many descriptors as possible that are queued for closure: those of
    /// which, as the table of descriptors says, there are no other duplicates left. Hands back the
    /// proxy of each socket that is closed.
    pub fn attempt_to_close_queued(&mut self, unshared: &Vec<SocketFd>) -> (r: Vec<
        Option<NetworkProxy>,
    >)
        requires
            old(self).wf(),
        ensures
            final(self).wf(),
            final(self).interaction() == old(self).interaction(),
            ({
                let st = old(self).state();
                let n = st.queued.len() as int;
                &&& final(self).state() == close_queued(st, numbers(unshared@), n).0
                &&& r@.len() == close_queued(st, numbers(unshared@), n).1.len()
                &&& forall|k: int|
                    0 <= k < r@.len() ==> proxy_view(#[trigger] r@[k]) == close_queued(
                        st,
                        numbers(unshared@),
                        n,
                    ).1[k]
                &&& forall|k: int|
                    0 <= k < r@.len() ==> ((#[trigger] r@[k]) is Some ==> r@[k]->Some_0.wf())
            }),
    {
        let ghost st = self.state();
        let ghost owners = self.owners@;
        let ghost free = numbers(unshared@);
        let mut queued: Vec<SocketFd> = Vec::new();
        core::mem::swap(&mut queued, &mut self.queued_for_closure);
        let mut closed: Vec<Option<NetworkProxy>> = Vec::new();
        let mut j: usize = 0;
        proof {
            assert(self.state().queued =~= Seq::empty());
            assert(self.state() =~= close_queued(st, free, 0).0);
            lemma_queue_is_free(st, self.owners@, self.state());
        }
        while j < queued.len()
            invariant
                j <= queued.len(),
                numbers(queued@) == st.queued,
                free == numbers(unshared@),
                self.wf(),
                self.interaction() == old(self).interaction(),
                self.state() == close_queued(st, free, j as int).0,
                closed@.len() == close_queued(st, free, j as int).1.len(),
                forall|k: int|
                    0 <= k < closed@.len() ==> proxy_view(#[trigger] closed@[k]) == close_queued(
                        st,
                        free,
                        j as int,
                    ).1[k],
                forall|k: int|
                    0 <= k < closed@.len() ==> ((#[trigger] closed@[k]) is Some
                        ==> closed@[k]->Some_0.wf()),
            decreases queued.len() - j,
        {
            let fd: SocketFd = queued[j];
            let ghost before = self.state();
            let ghost closed0 = closed@;
            assert(st.queued[j as int] == fd.number());
            if !contains_fd(unshared, &fd) {
                self.queued_for_closure.push(fd);
                proof {
                    let after = NetState { queued: before.queued.push(fd.number()), ..before };
                    assert(self.state().queued =~= after.queued);
                    assert(self.state() =~= after);
                    lemma_queue_is_free(before, self.owners@, after);
                }
            } else if self.is_open(&fd) {
                let proxy = self.close_entry(fd.index);
                closed.push(proxy);
            }
            j = j + 1;
        }
        closed
    }

    /// Close the socket at `fd`, of which there is no duplicate. Its proxy, if it has one, is handed
    /// back.
    pub fn close(&mut self, fd: &SocketFd, behavior: CloseBehavior) -> (r: Result<
        Option<NetworkProxy>,
        CloseError,
    >)
        requires
            old(self).wf(),
        ensures
            final(self).wf(),
            final(self).interaction() == old(self).interaction(),
            closes(old(self).state(), fd.number(), behavior, final(self).state(), r),
    {
        if !self.is_open(fd) {
            return Err(CloseError::InvalidFd);
        }
        let ghost st = self.state();
        // We close immediately if we can
        if self.can_close_now(fd, behavior) {
            proof {
                lemma_noting_before_closing(st, fd.number(), behavior);
            }
            self.finish_close(fd, CloseOutcome::Closed)
        } else {
            self.finish_close(fd, CloseOutcome::Deferred)
        }
    }

    /// Whether data of a descriptor waits to be sent.
    fn data_is_pending(&self, i: usize) -> (r: bool)
        requires
            self.wf(),
            self.state().is_live(i as int),
        ensures
            r == has_pending_data(self.state(), i as int),
    {
        let ghost st = self.state();
        assert(st.entries[i as int] == entry_view(self.entries@[i as int]));
        let in_proxy = match &self.entries[i] {
            Some(entry) => match &entry.proxy {
                Some(proxy) => proxy.has_pending_tx(),
                None => false,
            },
            None => false,
        };
        if in_proxy {
            return true;
        }
        let (tcp, handle) = self.handle_of(i);
        if tcp {
            sockets::tcp_may_send(&self.socket_set, handle) && sockets::tcp_send_queue(
                &self.socket_set,
                handle,
            ) > 0
        } else {
            sockets::udp_is_open(&self.socket_set, handle) && sockets::udp_send_queue(
                &self.socket_set,
                handle,
            ) > 0
        }
    }

    /// Close what belonged to descriptor `i` of the network `st`.
    fn close_handle(
        &mut self,
        entry: SocketEntry,
        Ghost(i): Ghost<int>,
        Ghost(st): Ghost<NetState>,
    ) -> (r: Option<NetworkProxy>)
        requires
            is_valid_network(st, old(self).owners@),
            st.is_live(i),
            st.entry(i) == entry@,
            entry.proxy is Some ==> entry.proxy->Some_0.wf(),
            old(self).state() == (NetState { entries: st.entries.update(i, None), ..st }),
            sockets::have_bounded_timeouts(st.sockets),
            forall|j: int|
                0 <= j < old(self).entries@.len() ==> has_valid_proxy(
                    #[trigger] old(self).entries@[j],
                ),
        ensures
            final(self).wf(),
            final(self).interaction() == old(self).interaction(),
            final(self).state() == closed_entry(st, i),
            proxy_view(r) == closed_proxy(st, i),
            r is Some ==> r->Some_0.wf(),
    {
        let ghost owners = self.owners@;
        let ghost done = closed_entry(st, i);
        proof {
            assert(is_valid_entry(st.sockets, owners, i, st.entry(i)));
        }
        let handle = entry.handle;
        match entry.specific {
            ProtocolSpecific::Udp(_) => {
                let port: u16 = sockets::udp_endpoint(&self.socket_set, handle).port;
                proof {
                    if port != 0 {
                        lemma_used_port_is_allocated(st.sockets, st.entries, i, port);
                        assert(port_users(st.sockets, st.entries, port) <= port_count(
                            st.ports,
                            port,
                        ));
                        lemma_release(st.ports, port);
                    }
                }
                self.local_port_allocator.deallocate_port(port);
                sockets::remove(&mut self.socket_set, handle);
                assert(self.state() =~= done);
                proof {
                    lemma_change_one(st, owners, done, owners, i);
                }
            },
            ProtocolSpecific::Tcp(tcp_specific) => {
                let ghost backlog = backlog_of(st.tcp(i));
                let ghost t = tcp_specific@;
                assert(t == st.tcp(i));
                proof {
                    if t.local_port is Some {
                        let p = t.local_port->Some_0;
                        lemma_used_port_is_allocated(st.sockets, st.entries, i, p);
                        assert(port_users(st.sockets, st.entries, p) <= port_count(st.ports, p));
                        lemma_release(st.ports, p);
                    }
                }
                if let Some(server_socket) = tcp_specific.server_socket {
                    // remove all listening sockets in the backlog
                    let handles = server_socket.socket_set_handles;
                    assert(handles@ == backlog);
                    let mut j: usize = 0;
                    assert(without_sockets(st.sockets, backlog.take(0)) =~= st.sockets);
                    while j < handles.len()
                        invariant
                            j <= handles.len(),
                            handles@ == backlog,
                            backlog.no_duplicates(),
                            forall|a: int|
                                0 <= a < backlog.len() ==> st.sockets.contains_key(
                                    #[trigger] backlog[a],
                                ),
                            sockets_of(self.socket_set) == without_sockets(
                                st.sockets,
                                backlog.take(j as int),
                            ),
                            self.entries == old(self).entries,
                            self.local_port_allocator == old(self).local_port_allocator,
                            self.closing_in_background == old(self).closing_in_background,
                            self.queued_for_closure == old(self).queued_for_closure,
                            self.owners == old(self).owners,
                            self.interface == old(self).interface,
                            self.interaction() == old(self).interaction(),
                        decreases handles.len() - j,
                    {
                        let h = handles[j];
                        proof {
                            assert(st.sockets.contains_key(backlog[j as int]));
                            assert(!backlog.take(j as int).contains(h)) by {
                                if backlog.take(j as int).contains(h) {
                                    let a = choose|a: int| 0 <= a < j && backlog.take(j as int)[a] == h;
                                    assert(backlog[a] == backlog[j as int]);
                                }
                            }
                        }
                        sockets::remove(&mut self.socket_set, h);
                        proof {
                            assert forall|g: SocketHandle| #[trigger]
                                backlog.take(j + 1).contains(g) <==> backlog.take(j as int).contains(g)
                                    || g == h by {
                                assert(backlog.take(j + 1) =~= backlog.take(j as int).push(h));
                                if backlog.take(j as int).contains(g) {
                                    let a = choose|a: int|
                                        0 <= a < j && backlog.take(j as int)[a] == g;
                                    assert(backlog.take(j + 1)[a] == g);
                                }
                                assert(backlog.take(j + 1)[j as int] == h);
                            }
                            assert(sockets_of(self.socket_set) =~= without_sockets(
                                st.sockets,
                                backlog.take(j + 1),
                            ));
                        }
                        j = j + 1;
                    }
                    assert(backlog.take(j as int) =~= backlog);
                } else {
                    assert(without_sockets(st.sockets, backlog) =~= st.sockets);
                }
                assert(!backlog.contains(handle)) by {
                    if backlog.contains(handle) {
                        let a = choose|a: int| 0 <= a < backlog.len() && backlog[a] == handle;
                        assert(is_tcp(st.sockets, backlog[a]));
                    }
                }
                if let Some(local_port) = tcp_specific.local_port {
                    self.local_port_allocator.deallocate(local_port);
                }
                if tcp_specific.immediate_close {
                    sockets::tcp_abort(&mut self.socket_set, handle);
                } else {
                    sockets::tcp_close(&mut self.socket_set, handle);
                }
                let ghost mid = NetState { closing: st.closing, ..done };
                assert(self.state() =~= mid);
                proof {
                    assert(keeps_others(st.sockets, mid.sockets, owners, i)) by {
                        assert forall|h: SocketHandle|
                            st.sockets.contains_key(h) && owners.contains_key(h) && owners[h]
                                != SocketOwner::Descriptor(i) && owners[h] != SocketOwner::Backlog(
                                i,
                            ) implies #[trigger] mid.sockets.contains_key(h) && mid.sockets[h]
                            == st.sockets[h] by {
                            if backlog.contains(h) {
                                let a = choose|a: int| 0 <= a < backlog.len() && backlog[a] == h;
                                assert(is_tcp(st.sockets, backlog[a]));
                            }
                        }
                    }
                    lemma_change_one(st, owners, mid, owners, i);
                    lemma_note_closing(mid, owners, handle, i);
                }
                self.closing_in_background.push(handle);
                self.owners = Ghost(owners.insert(handle, SocketOwner::Closing));
                assert(self.state() =~= done);
            },
        }
        match entry.proxy {
            Some(proxy) => {
                let mut proxy = proxy;
                proxy.set_state(SocketState::Closed);
                Some(proxy)
            },
            None => None,
        }
    }

    /// Remove dead sockets that were closing in the background.
    pub fn remove_dead_sockets(&mut self)
        requires
            old(self).wf(),
        ensures
            final(self).wf(),
            final(self).state() == without_dead_sockets(old(self).state()),
            final(self).interaction() == old(self).interaction(),
    {
        let ghost st = self.state();
        let ghost all = st.closing;
        let ghost dead = is_dead_in(st.sockets);
        let ghost lingering = is_lingering_in(st.sockets);
        let mut kept: Vec<SocketHandle> = Vec::new();
        let mut j: usize = 0;
        proof {
            reveal(Seq::filter);
            assert(all.take(0).filter(dead) =~= Seq::empty());
            assert(all.take(0).filter(lingering) =~= Seq::empty());
            assert(without_sockets(st.sockets, all.take(0).filter(dead)) =~= st.sockets);
        }
        while j < self.closing_in_background.len()
            invariant
                j <= self.closing_in_background.len(),
                self.closing_in_background@ == all,
                all.no_duplicates(),
                dead == is_dead_in(st.sockets),
                lingering == is_lingering_in(st.sockets),
                forall|a: int| 0 <= a < all.len() ==> is_tcp(st.sockets, #[trigger] all[a]),
                kept@ == all.take(j as int).filter(lingering),
                sockets_of(self.socket_set) == without_sockets(
                    st.sockets,
                    all.take(j as int).filter(dead),
                ),
                self.entries == old(self).entries,
                self.local_port_allocator == old(self).local_port_allocator,
                self.queued_for_closure == old(self).queued_for_closure,
                self.owners == old(self).owners,
                self.interface == old(self).interface,
                self.platform_interaction == old(self).platform_interaction,
            decreases self.closing_in_background.len() - j,
        {
            let handle = self.closing_in_background[j];
            let ghost gone = all.take(j as int).filter(dead);
            proof {
                reveal(Seq::filter);
                assert(all.take(j + 1).drop_last() =~= all.take(j as int));
                assert(is_tcp(st.sockets, all[j as int]));
                lemma_filter_is_subset(all.take(j as int), dead);
                if gone.contains(handle) {
                    let a = choose|a: int| 0 <= a < gone.len() && gone[a] == handle;
                    assert(all.take(j as int).contains(gone[a]));
                    let b = choose|b: int| 0 <= b < j && all.take(j as int)[b] == handle;
                    assert(all[b] == all[j as int]);
                }
            }
            // a socket in the CLOSED state with the remote endpoint set means that an outgoing RST
            // packet is pending
            if !sockets::tcp_is_open(&self.socket_set, handle) && sockets::tcp_remote_endpoint(
                &self.socket_set,
                handle,
            ).is_none() {
                sockets::remove(&mut self.socket_set, handle);
                proof {
                    let now = all.take(j + 1).filter(dead);
                    assert(now == gone.push(handle));
                    assert forall|g: SocketHandle| #[trigger] now.contains(g) <==> gone.contains(g)
                        || g == handle by {
                        if gone.contains(g) {
                            let a = choose|a: int| 0 <= a < gone.len() && gone[a] == g;
                            assert(now[a] == g);
                        }
                        assert(now[gone.len() as int] == handle);
                    }
                    assert(sockets_of(self.socket_set) =~= without_sockets(st.sockets, now));
                }
            } else {
                kept.push(handle);
            }
            j = j + 1;
        }
        assert(all.take(j as int) =~= all);
        self.closing_in_background = kept;
        let ghost done = without_dead_sockets(st);
        assert(self.state() =~= done);
        proof {
            lemma_filter_is_subset(all, dead);
            lemma_filter_is_subset(all, lingering);
            lemma_dead_are_unused(st, self.owners@);
        }
    }

    /// Close all finished sockets that are marked as closed but waiting for pending data to be
    /// sent.
    pub fn close_pending_sockets(&mut self)
        requires
            old(self).wf(),
        ensures
            final(self).wf(),
            final(self).state() == close_first_if_done(
                old(self).state(),
                old(self).state().entries.len() as int,
            ),
            final(self).interaction() == old(self).interaction(),
    {
        let ghost st0 = self.state();
        let mut i: usize = 0;
        while i < self.entries.len()
            invariant
                i <= self.entries.len(),
                self.entries.len() == st0.entries.len(),
                self.wf(),
                self.state() == close_first_if_done(st0, i as int),
                self.interaction() == old(self).interaction(),
            decreases self.entries.len() - i,
        {
            let ghost st = self.state();
            let ghost k = i as int;
            let ghost done = close_if_done(st, k);
            assert(st.entries[k] == entry_view(self.entries@[k]));
            assert(has_valid_proxy(self.entries@[k]));
            let waits = match &self.entries[i] {
                Some(entry) => entry.consider_closed,
                None => false,
            };
            if waits {
                assert(st.is_live(k));
                assert(is_valid_entry(st.sockets, self.owners@, k, st.entry(k)));
                if !self.data_is_pending(i) {
                    let (tcp, handle) = self.handle_of(i);
                    if tcp {
                        sockets::tcp_close(&mut self.socket_set, handle);
                    } else {
                        sockets::udp_close(&mut self.socket_set, handle);
                    }
                    if let Some(entry) = &mut self.entries[i] {
                        entry.consider_closed = false;
                    }
                    assert(self.state().entries =~= done.entries);
                    proof {
                        assert(self.state() =~= done);
                        lemma_change_one(st, self.owners@, done, self.owners@, k);
                    }
                }
            }
            i = i + 1;
        }
    }
}

/// Nothing else leads to the sockets that have finished closing.
proof fn lemma_dead_are_unused(st: NetState, owners: Map<SocketHandle, SocketOwner>)
    requires
        is_valid_network(st, owners),
    ensures
        is_valid_network(without_dead_sockets(st), owners),
{
    let st2 = without_dead_sockets(st);
    let dead = st.closing.filter(is_dead_in(st.sockets));
    lemma_filter_is_subset(st.closing, is_dead_in(st.sockets));
    lemma_filter_is_subset(st.closing, is_lingering_in(st.sockets));
    assert forall|h: SocketHandle| dead.contains(h) implies st.closing.contains(h) && is_dead_in(
        st.sockets,
    )(h) && owners[h] == SocketOwner::Closing by {
        let a = choose|a: int| 0 <= a < dead.len() && dead[a] == h;
        assert(st.closing.contains(dead[a]));
        let b = choose|b: int| 0 <= b < st.closing.len() && st.closing[b] == h;
        assert(is_tcp(st.sockets, st.closing[b]));
    }
    assert forall|j: int| #[trigger] st2.is_live(j) implies is_valid_entry(
        st2.sockets,
        owners,
        j,
        st2.entry(j),
    ) by {
        assert(st.is_live(j));
        let e = st.entry(j);
        assert(is_valid_entry(st.sockets, owners, j, e));
        assert(!dead.contains(e.handle));
        if e.specific is Tcp && e.specific->Tcp_0.server is Some {
            let handles = e.specific->Tcp_0.server->Some_0.handles;
            assert forall|k: int| 0 <= k < handles.len() implies is_tcp(
                st2.sockets,
                #[trigger] handles[k],
            ) && is_owned(st2.sockets, owners, handles[k], SocketOwner::Backlog(j)) by {
                assert(is_tcp(st.sockets, handles[k]));
                assert(!dead.contains(handles[k]));
            }
        }
    }
    assert forall|k: int| 0 <= k < st2.closing.len() implies is_tcp(
        st2.sockets,
        #[trigger] st2.closing[k],
    ) && is_owned(st2.sockets, owners, st2.closing[k], SocketOwner::Closing) by {
        let h = st2.closing[k];
        assert(st.closing.contains(h));
        let b = choose|b: int| 0 <= b < st.closing.len() && st.closing[b] == h;
        assert(is_tcp(st.sockets, st.closing[b]));
        assert(!dead.contains(h));
    }
    assert forall|p: u16| #[trigger] port_users(st2.sockets, st2.entries, p) <= port_count(
        st2.ports,
        p,
    ) by {
        assert forall|j: int| 0 <= j < st.entries.len() implies uses_port(
            st2.sockets,
            #[trigger] st.entries[j],
            p,
        ) == uses_port(st.sockets, st.entries[j], p) by {
            if st.is_live(j) {
                assert(st2.is_live(j));
                assert(st2.sockets.contains_key(st.entry(j).handle));
            }
        }
        lemma_port_users_same(st.sockets, st2.sockets, st.entries, p);
        assert(port_users(st.sockets, st.entries, p) <= port_count(st.ports, p));
    }
}

/// A stream channel and its socket after as much data as fits has been moved between them.
pub open spec fn pumped(ch: StreamView, v: TcpView) -> (StreamView, TcpView) {
    let sent = if v.state.may_send() {
        smaller(ch.tx.len(), (v.tx_capacity - v.tx.len()) as nat) as int
    } else {
        0
    };
    let received = smaller((ch.rx_capacity - ch.rx.len()) as nat, v.rx.len()) as int;
    (
        ch.tx_taken(sent).rx_added(v.rx.take(received)),
        TcpView { tx: v.tx + ch.tx.take(sent), rx: v.rx.skip(received), ..v },
    )
}

/// A stream channel after it has been told of the state of its socket.
pub open spec fn informed(ch: StreamView, v: TcpView, t: TcpSpecificView, now: i64) -> StreamView {
    let told = if v.state is Established {
        StreamView { error: None, ..ch.in_state(SocketState::Connected) }
    } else {
        ch
    };
    // server socket that is listening also has closed state
    if !v.state.is_open() && t.server is None {
        match told.state {
            SocketState::Connecting => {
                let error = if is_timed_out(t.connect_initiated_at, now) {
                    SocketAsyncError::TimedOut
                } else {
                    SocketAsyncError::ConnectionRefused
                };
                (StreamView { error: Some(error), ..told }).in_state(SocketState::Error)
            },
            SocketState::Connected => (StreamView {
                error: Some(SocketAsyncError::ConnectionReset),
                ..told
            }).in_state(SocketState::Closed),
            _ => told.in_state(SocketState::Closed),
        }
    } else {
        told
    }
}

/// Whether a connection waits to be accepted.
pub open spec fn has_ready(sockets: Map<SocketHandle, SocketView>, t: TcpSpecificView) -> bool {
    &&& t.server is Some
    &&& exists|k: int|
        0 <= k < t.server->Some_0.handles.len() && is_established(
            sockets,
            #[trigger] t.server->Some_0.handles[k],
        )
}

/// A stream channel after all has been exchanged with its socket.
pub open spec fn drained_stream(
    sockets: Map<SocketHandle, SocketView>,
    ch: StreamView,
    v: TcpView,
    t: TcpSpecificView,
    now: i64,
) -> (StreamView, TcpView) {
    let (moved, socket) = pumped(ch, v);
    let told = informed(moved, socket, t, now);
    (
        if told.rx_available == 0 && has_ready(sockets, t) {
            told.set_readable(true).notifying(Events::IN)
        } else {
            told
        },
        socket,
    )
}

/// Where a queued datagram goes, if anywhere.
pub open spec fn datagram_destination(
    message: MessageView,
    default: Option<SocketAddrV4>,
) -> Option<SocketAddrV4> {
    match message.addr {
        Some(SocketAddr::V4(addr)) => Some(addr),
        _ => default,
    }
}

/// What has been sent after `n` datagrams of a channel have been handled, given what had been
/// sent before. Datagrams without destination are discarded.
pub open spec fn sent_after(
    ch: DatagramView,
    sent: Seq<Packet>,
    default: Option<SocketAddrV4>,
    n: int,
) -> (DatagramView, Seq<Packet>)
    decreases n,
{
    if n <= 0 {
        (ch, sent)
    } else {
        let (before, sent) = sent_after(ch, sent, default, n - 1);
        let message = before.tx[0];
        let to = datagram_destination(message, default);
        (
            before.tx_taken(),
            match to {
                Some(addr) => sent.push(Packet { data: message.data, addr }),
                None => sent,
            },
        )
    }
}

/// A channel after the `n` eldest of some received packets have been pushed to it.
pub open spec fn received_after(ch: DatagramView, packets: Seq<Packet>, n: int) -> DatagramView
    decreases n,
{
    if n <= 0 {
        ch
    } else {
        received_after(ch, packets, n - 1).rx_added(
            MessageView {
                data: packets[n - 1].data,
                addr: Some(SocketAddr::V4(packets[n - 1].addr)),
            },
        )
    }
}

/// Whether sending the datagrams of a channel stops at one, given what the socket has room for: the
/// socket is full, or cannot send this one.
pub open spec fn stops_at(
    message: MessageView,
    default: Option<SocketAddrV4>,
    v: UdpView,
) -> bool {
    v.fits == Set::<nat>::empty() || match datagram_destination(message, default) {
        Some(to) => !can_address(v, to) || !v.fits.contains(message.data.len()),
        None => false,
    }
}

/// What exchanging everything between a datagram channel and its socket does: one datagram after
/// the other is sent, as long as the socket has room.
pub open spec fn drains_datagrams(
    ch: DatagramView,
    v: UdpView,
    default: Option<SocketAddrV4>,
    ch_after: DatagramView,
    v_after: UdpView,
) -> bool {
    let received = smaller((ch.capacity - ch.rx.len()) as nat, v.rx.len()) as int;
    exists|n: int| {
        &&& 0 <= n <= ch.tx.len()
        &&& ch_after == received_after(
            (#[trigger] sent_after(ch, v.tx, default, n)).0,
            v.rx,
            received,
        )
        &&& v_after.tx == sent_after(ch, v.tx, default, n).1
        &&& v_after.rx == v.rx.skip(received)
        &&& v_after.endpoint == v.endpoint
        &&& v_after.tx_capacity == v.tx_capacity
        &&& n < ch.tx.len() ==> stops_at(ch.tx[n], default, v_after)
    }
}

/// How many bytes those of the first `n` datagrams hold that go somewhere.
pub open spec fn bytes_to_send(
    tx: Seq<MessageView>,
    default: Option<SocketAddrV4>,
    n: int,
) -> nat
    decreases n,
{
    if n <= 0 {
        0
    } else {
        bytes_to_send(tx, default, n - 1) + if datagram_destination(tx[n - 1], default) is Some {
            tx[n - 1].data.len()
        } else {
            0
        }
    }
}

/// Whether the datagrams after one may be looked at: it goes nowhere, or the socket can send to its
/// destination, and can have room for it and those before it.
pub open spec fn may_pass(
    tx: Seq<MessageView>,
    default: Option<SocketAddrV4>,
    v: UdpView,
    k: int,
) -> bool {
    match datagram_destination(tx[k], default) {
        Some(to) => can_address(v, to) && v.tx_bytes + bytes_to_send(tx, default, k + 1)
            <= v.tx_capacity,
        None => true,
    }
}

/// Whether no datagram with an IPv6 destination may be looked at while datagrams are sent.
pub open spec fn reaches_no_v6(
    tx: Seq<MessageView>,
    default: Option<SocketAddrV4>,
    v: UdpView,
) -> bool {
    forall|n: int|
        0 <= n < tx.len() && (forall|k: int| 0 <= k < n ==> #[trigger] may_pass(tx, default, v, k))
            ==> !is_v6((#[trigger] tx[n]).addr)
}

/// Whether the proxy of an entry, if it has one, is of the kind of its socket, and no IPv6
/// destination is reached in it.
pub open spec fn is_drainable(sockets: Map<SocketHandle, SocketView>, e: EntryView) -> bool {
    match e.proxy {
        None => true,
        Some(ProxyView::Stream(_)) => e.specific is Tcp,
        Some(ProxyView::Datagram(ch)) => e.specific is Udp && reaches_no_v6(
            ch.tx,
            e.specific->Udp_0,
            udp_at(sockets, e.handle),
        ),
        Some(ProxyView::Raw) => false,
    }
}

/// Whether the proxy of each entry, if it has one, is of the kind of its socket, and no IPv6
/// destination is reached in it.
pub open spec fn are_drainable(st: NetState) -> bool {
    forall|i: int| #[trigger] st.is_live(i) ==> is_drainable(st.sockets, st.entry(i))
}

/// What exchanging everything between one descriptor and its socket does.
pub open spec fn drains_entry(st: NetState, i: int, now: i64, after: NetState) -> bool {
    match st.entry(i).proxy {
        Some(ProxyView::Stream(ch)) => {
            let (ch_after, v_after) = drained_stream(
                st.sockets,
                ch,
                st.tcp_socket(i),
                st.tcp(i),
                now,
            );
            after == st.with_tcp_socket(i, v_after).with_proxy(
                i,
                Some(ProxyView::Stream(ch_after)),
            )
        },
        Some(ProxyView::Datagram(ch)) => exists|ch_after: DatagramView, v_after: UdpView|
            #[trigger]
            drains_datagrams(
                ch,
                st.udp_socket(i),
                st.entry(i).specific->Udp_0,
                ch_after,
                v_after,
            ) && after == st.with_udp_socket(i, v_after).with_proxy(
                i,
                Some(ProxyView::Datagram(ch_after)),
            ),
        _ => after == st,
    }
}

/// Whether `steps` are the networks from `st` on, as the data of one descriptor after the other
/// is exchanged.
pub open spec fn are_drain_steps(st: NetState, now: i64, steps: Seq<NetState>) -> bool {
    &&& steps.len() > 0
    &&& steps[0] == st
    &&& forall|i: int|
        #![trigger steps[i]]
        0 <= i < steps.len() - 1 ==> if steps[i].is_live(i) {
            drains_entry(steps[i], i, now, steps[i + 1])
        } else {
            steps[i + 1] == steps[i]
        }
}

/// What exchanging everything between each of the first `n` descriptors and its socket does.
pub open spec fn drains_first(st: NetState, n: int, now: i64, after: NetState) -> bool {
    exists|steps: Seq<NetState>| #[trigger]
        are_drain_steps(st, now, steps) && steps.len() == n + 1 && steps.last() == after
}

proof fn lemma_drains_one_more(st: NetState, n: int, now: i64, mid: NetState, after: NetState)
    requires
        n >= 0,
        drains_first(st, n, now, mid),
        if mid.is_live(n) {
            drains_entry(mid, n, now, after)
        } else {
            after == mid
        },
    ensures
        drains_first(st, n + 1, now, after),
{
    let steps = choose|steps: Seq<NetState>| #[trigger]
        are_drain_steps(st, now, steps) && steps.len() == n + 1 && steps.last() == mid;
    let more = steps.push(after);
    assert(are_drain_steps(st, now, more)) by {
        assert forall|i: int| #![trigger more[i]] 0 <= i < more.len() - 1 implies (if more[i].is_live(
            i,
        ) {
            drains_entry(more[i], i, now, more[i + 1])
        } else {
            more[i + 1] == more[i]
        }) by {
            assert(more[i] == steps[i]);
        }
    }
}

/// Drain data between a stream channel and its socket.
fn drain_stream(
    socket_set: &mut SocketSet<'static>,
    handle: SocketHandle,
    proxy: &mut StreamSocketChannel,
    tcp_specific: &TcpSpecific,
    now: i64,
)
    requires
        is_tcp(sockets_of(*old(socket_set)), handle),
        old(proxy)@.is_bounded(),
        now >= 0,
        tcp_specific@.connect_initiated_at is Some ==> tcp_specific@.connect_initiated_at->Some_0
            >= 0,
        tcp_specific@.server is Some ==> forall|k: int|
            0 <= k < tcp_specific@.server->Some_0.handles.len() ==> is_tcp(
                sockets_of(*old(socket_set)),
                #[trigger] tcp_specific@.server->Some_0.handles[k],
            ) && tcp_specific@.server->Some_0.handles[k] != handle,
    ensures
        final(proxy)@.is_bounded(),
        ({
            let before = sockets_of(*old(socket_set));
            let (ch, v) = drained_stream(
                before,
                old(proxy)@,
                tcp_at(before, handle),
                tcp_specific@,
                now,
            );
            final(proxy)@ == ch && sockets_of(*final(socket_set)) == with_tcp(before, handle, v)
        }),
{
    let ghost before = sockets_of(*socket_set);
    let ghost v = tcp_at(before, handle);
    let ghost ch = proxy@;
    let ghost t = tcp_specific@;
    pump_stream(socket_set, handle, proxy);
    let ghost (moved, socket) = pumped(ch, v);
    inform_stream(socket_set, handle, proxy, tcp_specific, now);
    assert(proxy@ == informed(moved, socket, t, now));
    if let Some(server_socket) = &tcp_specific.server_socket {
        let ghost handles = server_socket.socket_set_handles@;
        assert(handles == t.server->Some_0.handles);
        if !proxy.is_readable() {
            let mut j: usize = 0;
            let mut ready = false;
            while j < server_socket.socket_set_handles.len() && !ready
                invariant
                    j <= handles.len(),
                    handles == server_socket.socket_set_handles@,
                    sockets_of(*socket_set) == with_tcp(before, handle, socket),
                    forall|k: int|
                        0 <= k < handles.len() ==> is_tcp(before, #[trigger] handles[k])
                            && handles[k] != handle,
                    ready ==> exists|k: int|
                        0 <= k < handles.len() && is_established(before, #[trigger] handles[k]),
                    !ready ==> forall|k: int|
                        0 <= k < j ==> !is_established(before, #[trigger] handles[k]),
                decreases handles.len() - j + (if ready {
                    0int
                } else {
                    1
                }),
            {
                let h = server_socket.socket_set_handles[j];
                assert(is_tcp(before, handles[j as int]));
                if sockets::tcp_state(socket_set, h) == TcpState::Established {
                    assert(is_established(before, handles[j as int]));
                    ready = true;
                } else {
                    j = j + 1;
                }
            }
            if ready {
                proxy.set_readable(true);
                proxy.notify_io_event(Events { bits: Events::IN });
            }
        }
    }
}

/// Move as much data as fits between a stream channel and its socket.
fn pump_stream(
    socket_set: &mut SocketSet<'static>,
    handle: SocketHandle,
    proxy: &mut StreamSocketChannel,
)
    requires
        is_tcp(sockets_of(*old(socket_set)), handle),
        old(proxy)@.is_bounded(),
    ensures
        final(proxy)@.is_bounded(),
        ({
            let before = sockets_of(*old(socket_set));
            let (ch, v) = pumped(old(proxy)@, tcp_at(before, handle));
            final(proxy)@ == ch && sockets_of(*final(socket_set)) == with_tcp(before, handle, v)
        }),
{
    let ghost before = sockets_of(*socket_set);
    let ghost v = tcp_at(before, handle);
    let ghost ch = proxy@;
    // Drain TX buffer: one pass moves all that there is room for
    if sockets::tcp_can_send(socket_set, handle) {
        let data = proxy.pending_tx();
        if let Some(sent) = sockets::tcp_send(socket_set, handle, data.as_slice()) {
            proxy.consume_tx(sent);
        }
    } else {
        assert(v.tx + ch.tx.take(0) =~= v.tx);
        assert(with_tcp(before, handle, v) =~= before);
    }
    let ghost sent = if v.state.may_send() {
        smaller(ch.tx.len(), (v.tx_capacity - v.tx.len()) as nat) as int
    } else {
        0
    };
    let ghost v1 = TcpView { tx: v.tx + ch.tx.take(sent), ..v };
    assert(sockets_of(*socket_set) =~= with_tcp(before, handle, v1));
    assert(proxy@ == ch.tx_taken(sent));
    // Drain RX buffer: one pass moves all that there is room for
    let room: usize = proxy.rx_space();
    if room > 0 && sockets::tcp_can_recv(socket_set, handle) {
        let mut buf: Vec<u8> = Vec::new();
        bytes::pad_to(&mut buf, room);
        if let Ok(n) = sockets::tcp_recv(socket_set, handle, buf.as_mut_slice()) {
            assert(buf@.take(n as int) =~= v.rx.take(n as int));
            let received = vstd::slice::slice_subrange(buf.as_slice(), 0, n);
            assert(received@ =~= v.rx.take(n as int));
            let pushed: usize = proxy.push_rx_data(received);
            assert(received@.take(pushed as int) =~= v.rx.take(n as int));
        }
    } else {
        assert(v.rx.take(0) =~= Seq::empty());
        assert(v.rx.skip(0) =~= v.rx);
    }
    assert(sockets_of(*socket_set) =~= with_tcp(before, handle, pumped(ch, v).1));
}

/// Tell a stream channel of the state of its socket.
fn inform_stream(
    socket_set: &SocketSet<'static>,
    handle: SocketHandle,
    proxy: &mut StreamSocketChannel,
    tcp_specific: &TcpSpecific,
    now: i64,
)
    requires
        is_tcp(sockets_of(*socket_set), handle),
        old(proxy)@.is_bounded(),
        now >= 0,
        tcp_specific@.connect_initiated_at is Some ==> tcp_specific@.connect_initiated_at->Some_0
            >= 0,
    ensures
        final(proxy)@.is_bounded(),
        final(proxy)@ == informed(
            old(proxy)@,
            tcp_at(sockets_of(*socket_set), handle),
            tcp_specific@,
            now,
        ),
{
    if sockets::tcp_state(socket_set, handle) == TcpState::Established {
        proxy.set_state(SocketState::Connected);
        proxy.clear_async_error();
    }
    // server socket that is listening also has closed state
    if !sockets::tcp_is_open(socket_set, handle) && tcp_specific.server_socket.is_none() {
        // Determine error based on previous socket state
        match proxy.state() {
            SocketState::Connecting => {
                // Socket closed while connecting. Distinguish RST from timeout.
                let error = if has_timed_out(tcp_specific.connect_initiated_at_us, now) {
                    SocketAsyncError::TimedOut
                } else {
                    SocketAsyncError::ConnectionRefused
                };
                proxy.set_async_error(error);
                proxy.set_state(SocketState::Error);
            },
            SocketState::Connected => {
                // Connection was reset by peer
                proxy.set_async_error(SocketAsyncError::ConnectionReset);
                proxy.set_state(SocketState::Closed);
            },
            _ => {
                proxy.set_state(SocketState::Closed);
            },
        }
    }
}

/// Drain data between a datagram channel and its socket.
fn drain_datagrams(
    socket_set: &mut SocketSet<'static>,
    handle: SocketHandle,
    proxy: &mut DatagramSocketChannel,
    default: Option<SocketAddrV4>,
)
    requires
        is_udp(sockets_of(*old(socket_set)), handle),
        old(proxy).wf(),
        reaches_no_v6(
            old(proxy)@.tx,
            default,
            udp_at(sockets_of(*old(socket_set)), handle),
        ),
    ensures
        final(proxy).wf(),
        exists|v: UdpView| #[trigger]
            drains_datagrams(
                old(proxy)@,
                udp_at(sockets_of(*old(socket_set)), handle),
                default,
                final(proxy)@,
                v,
            ) && sockets_of(*final(socket_set)) == with_udp(
                sockets_of(*old(socket_set)),
                handle,
                v,
            ),
{
    let ghost before = sockets_of(*socket_set);
    let ghost v0 = udp_at(before, handle);
    let ghost ch0 = proxy@;
    let ghost mut n: int = 0;
    let mut going = true;
    assert(ch0.tx.skip(0) =~= ch0.tx);
    assert(with_udp(before, handle, v0) =~= before);
    proof {
        proxy.lemma_wf();
    }
    // Drain TX queue: try to send datagrams, consume only on success
    while going && sockets::udp_can_send(socket_set, handle)
        invariant
            0 <= n <= ch0.tx.len(),
            proxy.wf(),
            is_udp(sockets_of(*socket_set), handle),
            proxy@ == sent_after(ch0, v0.tx, default, n).0,
            proxy@.tx == ch0.tx.skip(n),
            proxy@.rx == ch0.rx,
            proxy@.capacity == ch0.capacity,
            sockets_of(*socket_set) == with_udp(
                before,
                handle,
                udp_at(sockets_of(*socket_set), handle),
            ),
            udp_at(sockets_of(*socket_set), handle).tx == sent_after(ch0, v0.tx, default, n).1,
            udp_at(sockets_of(*socket_set), handle).rx == v0.rx,
            udp_at(sockets_of(*socket_set), handle).endpoint == v0.endpoint,
            udp_at(sockets_of(*socket_set), handle).tx_capacity == v0.tx_capacity,
            udp_at(sockets_of(*socket_set), handle).tx_bytes >= v0.tx_bytes + bytes_to_send(
                ch0.tx,
                default,
                n,
            ),
            forall|k: int| 0 <= k < n ==> #[trigger] may_pass(ch0.tx, default, v0, k),
            reaches_no_v6(ch0.tx, default, v0),
            !going && n < ch0.tx.len() ==> stops_at(
                ch0.tx[n],
                default,
                udp_at(sockets_of(*socket_set), handle),
            ),
        decreases ch0.tx.len() - n + (if going {
            1int
        } else {
            0
        }),
    {
        let ghost mid = sockets_of(*socket_set);
        let consumed = match proxy.first_tx() {
            None => false,
            Some(message) => {
                assert(message@ == proxy@.tx[0]);
                assert(proxy@.tx[0] == ch0.tx[n]);
                let destination = match message.addr {
                    Some(SocketAddr::V4(addr)) => Some(addr),
                    Some(SocketAddr::V6(_)) => {
                        assert(is_v6(ch0.tx[n].addr));
                        default
                    },
                    None => default,
                };
                assert(destination == datagram_destination(proxy@.tx[0], default));
                match destination {
                    Some(endpoint) => {
                        let sent = sockets::udp_send(
                            socket_set,
                            handle,
                            message.data.as_slice(),
                            endpoint,
                        ).is_ok();
                        assert(sockets_of(*socket_set) =~= with_udp(
                            before,
                            handle,
                            udp_at(sockets_of(*socket_set), handle),
                        ));
                        sent
                    },
                    // No destination - discard
                    None => true,
                }
            },
        };
        if consumed {
            assert(ch0.tx.skip(n).skip(1) =~= ch0.tx.skip(n + 1));
            assert(may_pass(ch0.tx, default, v0, n));
            proxy.consume_tx();
            proof {
                n = n + 1;
            }
        } else {
            // Either queue empty or send failed
            going = false;
        }
    }
    let ghost ch1 = proxy@;
    let ghost v1 = udp_at(sockets_of(*socket_set), handle);
    let ghost total = smaller((ch0.capacity - ch0.rx.len()) as nat, v0.rx.len()) as int;
    let ghost mut m: int = 0;
    let mut going = true;
    assert(v0.rx.skip(0) =~= v0.rx);
    // Drain RX: receive from the socket, push to the channel
    while going && sockets::udp_can_recv(socket_set, handle)
        invariant_except_break
            true,
        invariant
            0 <= m <= total,
            proxy.wf(),
            total == smaller((ch0.capacity - ch0.rx.len()) as nat, v0.rx.len()),
            ch0.rx.len() <= ch0.capacity,
            is_udp(sockets_of(*socket_set), handle),
            proxy@ == received_after(ch1, v0.rx, m),
            proxy@.rx.len() == ch0.rx.len() + m,
            proxy@.capacity == ch0.capacity,
            sockets_of(*socket_set) == with_udp(
                before,
                handle,
                UdpView { rx: v0.rx.skip(m), ..v1 },
            ),
            !going ==> m == total,
        ensures
            m == total,
        decreases total - m + (if going {
            1int
        } else {
            0
        }),
    {
        if proxy.is_rx_full() {
            going = false;
        } else {
            match sockets::udp_recv(socket_set, handle) {
                None => {
                    going = false;
                },
                Some((data, from)) => {
                    assert(v0.rx.skip(m)[0] == v0.rx[m]);
                    assert(v0.rx.skip(m).skip(1) =~= v0.rx.skip(m + 1));
                    let pushed = proxy.push_rx_datagram(data, SocketAddr::V4(from));
                    assert(sockets_of(*socket_set) =~= with_udp(
                        before,
                        handle,
                        UdpView { rx: v0.rx.skip(m + 1), ..v1 },
                    ));
                    proof {
                        m = m + 1;
                    }
                },
            }
        }
    }
    proof {
        let v2 = UdpView { rx: v0.rx.skip(m), ..v1 };
        assert(sent_after(ch0, v0.tx, default, n).0 == ch1);
        assert(drains_datagrams(ch0, v0, default, proxy@, v2));
    }
}

/// No byte is lost, doubled or put out of order when data is moved between a stream channel and its
/// socket: what waits to be sent, in the socket and then in the channel, is the same as before, and
/// so is what waits to be read, in the channel and then in the socket.
pub proof fn lemma_pumping_loses_nothing(ch: StreamView, v: TcpView)
    requires
        ch.is_bounded(),
        v.tx.len() <= v.tx_capacity,
    ensures
        pumped(ch, v).1.tx + pumped(ch, v).0.tx == v.tx + ch.tx,
        pumped(ch, v).0.rx + pumped(ch, v).1.rx == ch.rx + v.rx,
        pumped(ch, v).0.is_bounded(),
        pumped(ch, v).1.tx.len() <= v.tx_capacity,
{
    let (after, socket) = pumped(ch, v);
    assert(socket.tx + after.tx =~= v.tx + ch.tx);
    assert(after.rx + socket.rx =~= ch.rx + v.rx);
}

/// Closing a socket that was bound gives its local port back.
pub proof fn lemma_bind_then_close(st: NetState, i: int, ip: u32, asked: u16, port: u16, abort: bool)
    requires
        st.is_tcp_fd(i),
        may_get_port(st.ports, asked, port),
    ensures
        closed_state(tcp_bound(st, i, ip, port), i, abort).ports == st.ports,
        !closed_state(tcp_bound(st, i, ip, port), i, abort).is_live(i),
{
    local_ports::lemma_allocate_then_release(st.ports, port);
}

/// Closing a UDP socket that was bound gives its local port back.
pub proof fn lemma_udp_bind_then_close(
    st: NetState,
    i: int,
    addr: Option<u32>,
    asked: u16,
    port: u16,
    abort: bool,
)
    requires
        st.is_udp_fd(i),
        may_get_port(st.ports, asked, port),
    ensures
        closed_state(udp_bound(st, i, ListenEndpoint { addr, port }), i, abort).ports == st.ports,
        !closed_state(udp_bound(st, i, ListenEndpoint { addr, port }), i, abort).sockets.contains_key(
            st.entry(i).handle,
        ),
{
    local_ports::lemma_allocate_then_release(st.ports, port);
}

/// How long to wait, in microseconds, until a point in time.
pub open spec fn time_until(now: i64, at: i64) -> nat {
    if now < at {
        (at - now) as nat
    } else {
        0
    }
}

impl Network {
    /// Drain all socket channel buffers. Each socket with a proxy must have one of its kind.
    pub fn drain_all_socket_channel_buffers(&mut self, now: i64)
        requires
            old(self).wf(),
            now >= 0,
            are_drainable(old(self).state()),
        ensures
            final(self).wf(),
            final(self).state().entries.len() == old(self).state().entries.len(),
            drains_first(
                old(self).state(),
                old(self).state().entries.len() as int,
                now,
                final(self).state(),
            ),
            final(self).interaction() == old(self).interaction(),
    {
        let ghost st0 = self.state();
        let mut i: usize = 0;
        assert(are_drain_steps(st0, now, seq![st0]));
        while i < self.entries.len()
            invariant
                i <= self.entries.len(),
                self.entries.len() == st0.entries.len(),
                self.wf(),
                now >= 0,
                drains_first(st0, i as int, now, self.state()),
                forall|j: int|
                    i <= j < st0.entries.len() ==> #[trigger] self.state().entries[j]
                        == st0.entries[j],
                forall|j: int|
                    i <= j < st0.entries.len() && #[trigger] self.state().is_live(j)
                        ==> is_drainable(self.state().sockets, self.state().entry(j)),
                self.interaction() == old(self).interaction(),
            decreases self.entries.len() - i,
        {
            let ghost mid = self.state();
            let ghost owners = self.owners@;
            let ghost k = i as int;
            assert(mid.entries[k] == st0.entries[k]);
            if self.entries[i].is_some() {
                assert(mid.entries[k] == entry_view(self.entries@[k]));
                assert(mid.is_live(k) && st0.is_live(k));
                self.drain_socket_channel_buffers(i, now);
                assert forall|j: int| k + 1 <= j < st0.entries.len() implies #[trigger] self.state().entries[j]
                    == st0.entries[j] by {
                    assert(mid.entries[j] == st0.entries[j]);
                }
                assert(drains_entry(mid, k, now, self.state()));
                proof {
                    lemma_draining_keeps_others(mid, owners, k, now, self.state());
                }
            } else {
                assert(mid.entries[k] == entry_view(self.entries@[k]));
                assert(!mid.is_live(k));
            }
            proof {
                lemma_drains_one_more(st0, k, now, mid, self.state());
            }
            i = i + 1;
        }
    }

    /// Drain data between the channel of a descriptor and its socket.
    ///
    /// This transfers data from the TX queue (user writes) to the socket, and from the socket to
    /// the RX queue (user reads).
    fn drain_socket_channel_buffers(&mut self, i: usize, now: i64)
        requires
            old(self).wf(),
            now >= 0,
            old(self).state().is_live(i as int),
            is_drainable(old(self).state().sockets, old(self).state().entry(i as int)),
        ensures
            final(self).wf(),
            drains_entry(old(self).state(), i as int, now, final(self).state()),
            final(self).state().entries.len() == old(self).state().entries.len(),
            forall|j: int|
                0 <= j < old(self).state().entries.len() && j != i
                    ==> #[trigger] final(self).state().entries[j] == old(self).state().entries[j],
            final(self).interaction() == old(self).interaction(),
    {
        let ghost st = self.state();
        let ghost k = i as int;
        let ghost owners = self.owners@;
        let ghost h = st.entry(k).handle;
        assert(is_valid_entry(st.sockets, owners, k, st.entry(k)));
        assert(st.entries[k] == entry_view(self.entries@[k]));
        assert(has_valid_proxy(self.entries@[k]));
        let ghost mut done = st;
        if let Some(entry) = &mut self.entries[i] {
            match &mut entry.proxy {
                Some(NetworkProxy::Stream(channel)) => {
                    if let ProtocolSpecific::Tcp(t) = &entry.specific {
                        proof {
                            if t@.server is Some {
                                let handles = t@.server->Some_0.handles;
                                assert forall|a: int| 0 <= a < handles.len() implies is_tcp(
                                    st.sockets,
                                    #[trigger] handles[a],
                                ) && handles[a] != h by {}
                            }
                        }
                        drain_stream(&mut self.socket_set, entry.handle, channel, t, now);
                        proof {
                            let ch = st.entry(k).proxy->Some_0->Stream_0;
                            let (ch2, v2) = drained_stream(
                                st.sockets,
                                ch,
                                st.tcp_socket(k),
                                st.tcp(k),
                                now,
                            );
                            done = st.with_tcp_socket(k, v2).with_proxy(
                                k,
                                Some(ProxyView::Stream(ch2)),
                            );
                        }
                    }
                },
                Some(NetworkProxy::Datagram(channel)) => {
                    if let ProtocolSpecific::Udp(u) = &entry.specific {
                        let ghost ch = channel@;
                        drain_datagrams(
                            &mut self.socket_set,
                            entry.handle,
                            channel,
                            u.remote_endpoint,
                        );
                        proof {
                            let v2 = choose|v: UdpView| #[trigger]
                                drains_datagrams(
                                    ch,
                                    st.udp_socket(k),
                                    u.remote_endpoint,
                                    channel@,
                                    v,
                                ) && sockets_of(self.socket_set) == with_udp(st.sockets, h, v);
                            done = st.with_udp_socket(k, v2).with_proxy(
                                k,
                                Some(ProxyView::Datagram(channel@)),
                            );
                        }
                    }
                },
                _ => {},
            }
        }
        proof {
            assert(self.state().entries =~= done.entries);
            assert(self.state() =~= done);
            lemma_change_one(st, owners, done, owners, k);
        }
    }

    /// Get ready for the interface to be polled, at `now` microseconds: what has been closed is
    /// cleaned up, and all data is exchanged between channels and sockets.
    pub fn prepare_for_poll(&mut self, now: i64)
        requires
            old(self).wf(),
            now >= 0,
            are_drainable(old(self).state()),
        ensures
            final(self).wf(),
            ({
                let cleaned = close_first_if_done(
                    without_dead_sockets(old(self).state()),
                    old(self).state().entries.len() as int,
                );
                drains_first(
                    cleaned,
                    old(self).state().entries.len() as int,
                    now,
                    final(self).state(),
                )
            }),
            final(self).interaction() == old(self).interaction(),
    {
        let ghost st = self.state();
        let ghost owners = self.owners@;
        self.remove_dead_sockets();
        let ghost mid_owners = self.owners@;
        self.close_pending_sockets();
        proof {
            let n = st.entries.len() as int;
            lemma_dead_sockets_are_not_drained(st, owners);
            lemma_closing_keeps_drainable(without_dead_sockets(st), mid_owners, n);
        }
        self.drain_all_socket_channel_buffers(now);
    }

    /// When the interface wants to be polled next, in microseconds, if at all.
    pub closed spec fn poll_time(&self, now: i64) -> Option<i64> {
        sockets::poll_time(self.interface, now, self.socket_set)
    }

    /// Return a _soft timeout_ (duration to wait, in microseconds) before the interface should be
    /// polled again.
    ///
    /// Returns `None` if there is no pending timeout (i.e., no scheduled work requiring network
    /// operations).
    pub fn poll_at(&mut self, now: i64) -> (r: Option<u64>)
        requires
            old(self).wf(),
            now >= 0,
        ensures
            final(self).wf(),
            final(self).state() == old(self).state(),
            final(self).interaction() == old(self).interaction(),
            r == timeout_from(now, old(self).poll_time(now)),
    {
        let at = sockets::interface_poll_at(&mut self.interface, now, &self.socket_set);
        Self::timeout_for(now, at)
    }

    /// The timeout after which to poll an interface that wants to be polled at a point in time.
    pub fn timeout_for(now: i64, at: Option<i64>) -> (r: Option<u64>)
        requires
            now >= 0,
        ensures
            r == timeout_from(now, at),
    {
        match at {
            Some(at) => if now < at {
                Some((at - now) as u64)
            } else {
                Some(0)
            },
            None => None,
        }
    }

    /// Advice on when to poll again, after a poll that changed the state of some socket or did
    /// not.
    pub fn advice(&mut self, socket_state_changed: bool, now: i64) -> (r:
        PlatformInteractionReinvocationAdvice)
        requires
            old(self).wf(),
            now >= 0,
            old(self).interaction() == PlatformInteraction::Manual,
        ensures
            final(self).wf(),
            final(self).state() == old(self).state(),
            final(self).interaction() == old(self).interaction(),
            r == advised(socket_state_changed, timeout_from(now, old(self).poll_time(now))),
    {
        if socket_state_changed {
            PlatformInteractionReinvocationAdvice::CallAgainImmediately
        } else {
            PlatformInteractionReinvocationAdvice::WaitOnDeviceOrSocketInteraction {
                timeout: self.poll_at(now),
            }
        }
    }

    /// The time in microseconds since an arbitrary point, as the sockets count it.
    pub fn now(elapsed_micros: u128) -> (r: i64)
        requires
            elapsed_micros <= i64::MAX,
        ensures
            r == elapsed_micros,
    {
        elapsed_micros as i64
    }
}

/// The timeout after which to poll an interface that wants to be polled at a point in time.
pub open spec fn timeout_from(now: i64, at: Option<i64>) -> Option<u64> {
    match at {
        Some(at) => Some(time_until(now, at) as u64),
        None => None,
    }
}

/// Whether a descriptor is among some.
fn contains_fd(fds: &Vec<SocketFd>, fd: &SocketFd) -> (r: bool)
    ensures
        r == numbers(fds@).contains(fd.number()),
{
    let mut k: usize = 0;
    while k < fds.len()
        invariant
            k <= fds.len(),
            forall|j: int| 0 <= j < k ==> (#[trigger] fds@[j]).number() != fd.number(),
        decreases fds.len() - k,
    {
        if fds[k].index == fd.index {
            assert(numbers(fds@)[k as int] == fd.number());
            return true;
        }
        k = k + 1;
    }
    assert forall|j: int| 0 <= j < numbers(fds@).len() implies #[trigger] numbers(fds@)[j]
        != fd.number() by {
        assert(numbers(fds@)[j] == fds@[j].number());
    }
    false
}

/// Two descriptors have different sockets.
proof fn lemma_handles_differ(st: NetState, owners: Map<SocketHandle, SocketOwner>, i: int, j: int)
    requires
        is_valid_network(st, owners),
        st.is_live(i),
        st.is_live(j),
        i != j,
    ensures
        st.entry(i).handle != st.entry(j).handle,
{
    assert(is_valid_entry(st.sockets, owners, i, st.entry(i)));
    assert(is_valid_entry(st.sockets, owners, j, st.entry(j)));
}

/// Exchanging the data of one descriptor leaves the others as drainable as they were.
proof fn lemma_draining_keeps_others(
    st: NetState,
    owners: Map<SocketHandle, SocketOwner>,
    i: int,
    now: i64,
    after: NetState,
)
    requires
        is_valid_network(st, owners),
        st.is_live(i),
        drains_entry(st, i, now, after),
    ensures
        forall|j: int| #[trigger]
            after.is_live(j) && j != i ==> st.is_live(j) && after.entry(j) == st.entry(j)
                && is_drainable(after.sockets, after.entry(j)) == is_drainable(
                st.sockets,
                st.entry(j),
            ),
{
    assert forall|j: int| #[trigger] after.is_live(j) && j != i implies st.is_live(j)
        && after.entry(j) == st.entry(j) && is_drainable(after.sockets, after.entry(j))
        == is_drainable(st.sockets, st.entry(j)) by {
        assert(st.is_live(j));
        lemma_handles_differ(st, owners, i, j);
        assert(after.sockets[st.entry(j).handle] == st.sockets[st.entry(j).handle]);
    }
}

/// No descriptor has a socket that has finished closing.
proof fn lemma_dead_sockets_are_not_drained(st: NetState, owners: Map<SocketHandle, SocketOwner>)
    requires
        is_valid_network(st, owners),
        are_drainable(st),
    ensures
        are_drainable(without_dead_sockets(st)),
{
    let after = without_dead_sockets(st);
    let dead = st.closing.filter(is_dead_in(st.sockets));
    assert forall|i: int| #[trigger] after.is_live(i) implies is_drainable(
        after.sockets,
        after.entry(i),
    ) by {
        assert(st.is_live(i));
        let h = st.entry(i).handle;
        assert(is_valid_entry(st.sockets, owners, i, st.entry(i)));
        if dead.contains(h) {
            lemma_filter_is_subset(st.closing, is_dead_in(st.sockets));
            let k = choose|k: int| 0 <= k < st.closing.len() && st.closing[k] == h;
            assert(is_tcp(st.sockets, st.closing[k]));
        }
        assert(after.sockets[h] == st.sockets[h]);
    }
}

/// Closing what is to be closed leaves everything drainable: no datagram waits in the channel of a
/// descriptor that is closed then.
proof fn lemma_closing_keeps_drainable(
    st: NetState,
    owners: Map<SocketHandle, SocketOwner>,
    n: int,
)
    requires
        is_valid_network(st, owners),
        are_drainable(st),
    ensures
        are_drainable(close_first_if_done(st, n)),
        close_first_if_done(st, n).entries.len() == st.entries.len(),
        forall|i: int| #[trigger]
            close_first_if_done(st, n).is_live(i) ==> st.is_live(i) && close_first_if_done(
                st,
                n,
            ).entry(i).handle == st.entry(i).handle,
    decreases n,
{
    if n > 0 {
        lemma_closing_keeps_drainable(st, owners, n - 1);
        let before = close_first_if_done(st, n - 1);
        let after = close_first_if_done(st, n);
        assert forall|i: int| #[trigger] after.is_live(i) implies st.is_live(i) && after.entry(
            i,
        ).handle == st.entry(i).handle && is_drainable(after.sockets, after.entry(i)) by {
            assert(before.is_live(i));
            if before.is_live(n - 1) && i != n - 1 {
                lemma_handles_differ(st, owners, i, n - 1);
                assert(after.sockets[st.entry(i).handle] == before.sockets[st.entry(i).handle]);
            }
        }
    }
}

} // verus!
