//! The sockets of the TCP/IP stack.
use crate::net::ring::smaller;
use crate::net::{CongestionControl, SocketAddrV4};
use smoltcp::iface::{Interface, SocketHandle, SocketSet};
use smoltcp::socket::{tcp, udp};
use smoltcp::storage::{PacketBuffer, PacketMetadata, RingBuffer};
use smoltcp::time::{Duration, Instant};
use smoltcp::wire::{IpAddress, IpCidr, IpEndpoint, IpListenEndpoint, Ipv4Address};
use vstd::prelude::*;

verus! {

#[verifier::external_type_specification]
#[verifier::external_body]
pub struct ExSocketSet<'a>(smoltcp::iface::SocketSet<'a>);

#[verifier::external_type_specification]
#[verifier::external_body]
pub struct ExSocketHandle(smoltcp::iface::SocketHandle);

#[verifier::external_type_specification]
#[verifier::external_body]
pub struct ExInterface(smoltcp::iface::Interface);

/// The addresses of an interface, each with the length of its network prefix, in order.
pub uninterp spec fn interface_addrs(interface: Interface) -> Seq<(u32, u8)>;

/// The gateways of the routes of an interface, in order.
pub uninterp spec fn interface_routes(interface: Interface) -> Seq<u32>;

/// Whether an interface can have an address: it is neither for many hosts nor for all.
pub open spec fn is_unicast(ip: u32) -> bool {
    ip != 0xffff_ffff && !(0xe000_0000 <= ip < 0xf000_0000)
}

/// The address that connections from an interface have: its first one.
pub open spec fn source_address(addrs: Seq<(u32, u8)>) -> Option<u32> {
    if addrs.len() > 0 {
        Some(addrs[0].0)
    } else {
        None
    }
}

/// [`smoltcp::iface::Interface::ip_addrs`]: how many addresses an interface has.
#[verifier::external_body]
pub(crate) fn address_count(interface: &Interface) -> (r: usize)
    ensures
        r == interface_addrs(*interface).len(),
{
    interface.ip_addrs().len()
}

/// [`smoltcp::iface::Routes::update`]: how many routes an interface has. Nothing is changed.
#[verifier::external_body]
pub(crate) fn route_count(interface: &mut Interface) -> (r: usize)
    ensures
        r == interface_routes(*old(interface)).len(),
        interface_routes(*final(interface)) == interface_routes(*old(interface)),
        interface_addrs(*final(interface)) == interface_addrs(*old(interface)),
{
    let mut count: usize = 0;
    interface.routes_mut().update(|routes| count = routes.len());
    count
}

/// [`smoltcp::iface::Interface::update_ip_addrs`]: an interface without addresses is given one.
#[verifier::external_body]
pub(crate) fn add_address(interface: &mut Interface, ip: u32, prefix_len: u8)
    requires
        interface_addrs(*old(interface)).len() == 0,
        is_unicast(ip),
        prefix_len <= 32,
    ensures
        interface_addrs(*final(interface)) == seq![(ip, prefix_len)],
        interface_routes(*final(interface)) == interface_routes(*old(interface)),
{
    let cidr = IpCidr::new(IpAddress::Ipv4(Ipv4Address::from_bits(ip)), prefix_len);
    interface.update_ip_addrs(|addrs| addrs.push(cidr).expect("there is room for an address"));
}

/// [`smoltcp::iface::Routes::add_default_ipv4_route`]: an interface without routes is given a
/// default route through a gateway.
#[verifier::external_body]
pub(crate) fn add_default_route(interface: &mut Interface, gateway: u32)
    requires
        interface_routes(*old(interface)).len() == 0,
    ensures
        interface_routes(*final(interface)) == seq![gateway],
        interface_addrs(*final(interface)) == interface_addrs(*old(interface)),
{
    let gateway = Ipv4Address::from_bits(gateway);
    interface.routes_mut().add_default_ipv4_route(gateway).expect("there is room for a route");
}

/// The state of a TCP socket, according to RFC 793.
#[derive(Clone, Copy, Debug, PartialEq, Eq, Structural)]
pub enum TcpState {
    Closed,
    Listen,
    SynSent,
    SynReceived,
    Established,
    FinWait1,
    FinWait2,
    CloseWait,
    Closing,
    LastAck,
    TimeWait,
}

impl TcpState {
    /// Whether the socket is neither closed nor waiting for its connection to be forgotten.
    pub open spec fn is_open(self) -> bool {
        !(self is Closed) && !(self is TimeWait)
    }

    /// Whether the transmit half of the connection is open.
    pub open spec fn may_send(self) -> bool {
        self is Established || self is CloseWait
    }

    /// The state after the transmit half has been closed.
    pub open spec fn closed(self) -> TcpState {
        match self {
            TcpState::Listen | TcpState::SynSent => TcpState::Closed,
            TcpState::SynReceived | TcpState::Established => TcpState::FinWait1,
            TcpState::CloseWait => TcpState::LastAck,
            _ => self,
        }
    }
}

/// A local endpoint. Without an address, it stands for every address.
#[derive(Clone, Copy, Debug, PartialEq, Eq, Structural)]
pub struct ListenEndpoint {
    pub addr: Option<u32>,
    pub port: u16,
}

/// The endpoint of a socket that is not bound.
pub open spec fn unbound() -> ListenEndpoint {
    ListenEndpoint { addr: None, port: 0 }
}

/// The value of a TCP socket, as far as the library depends on it.
#[verifier::ext_equal]
pub struct TcpView {
    pub state: TcpState,
    /// Both ends of the connection, the local one first.
    pub ends: Option<(SocketAddrV4, SocketAddrV4)>,
    pub listen: ListenEndpoint,
    /// Received bytes that have not been read.
    pub rx: Seq<u8>,
    /// Whether the other end has finished sending.
    pub rx_finished: bool,
    /// Bytes that have not been sent and acknowledged.
    pub tx: Seq<u8>,
    pub tx_capacity: nat,
    /// In microseconds.
    pub timeout: Option<u64>,
    /// In microseconds.
    pub keep_alive: Option<u64>,
    pub nagle: bool,
}

impl TcpView {
    /// A new socket.
    pub open spec fn fresh(tx_capacity: nat) -> TcpView {
        TcpView {
            state: TcpState::Closed,
            ends: None,
            listen: unbound(),
            rx: Seq::empty(),
            rx_finished: false,
            tx: Seq::empty(),
            tx_capacity,
            timeout: None,
            keep_alive: None,
            nagle: true,
        }
    }

    /// Whether the receive half of the connection is open, or there is something left to read.
    pub open spec fn may_recv(self) -> bool {
        self.state is Established || self.state is FinWait1 || self.state is FinWait2
            || self.rx.len() > 0
    }

    /// The socket after starting to connect.
    pub open spec fn connecting(self, local: SocketAddrV4, remote: SocketAddrV4) -> TcpView {
        TcpView {
            state: TcpState::SynSent,
            ends: Some((local, remote)),
            listen: unbound(),
            rx: Seq::empty(),
            rx_finished: false,
            tx: Seq::empty(),
            ..self
        }
    }

    /// The socket after starting to listen.
    pub open spec fn listening(self, endpoint: ListenEndpoint) -> TcpView {
        TcpView {
            state: TcpState::Listen,
            ends: None,
            listen: endpoint,
            rx: Seq::empty(),
            rx_finished: false,
            tx: Seq::empty(),
            ..self
        }
    }
}

/// A datagram and the address of the other end.
#[verifier::ext_equal]
pub struct Packet {
    pub data: Seq<u8>,
    pub addr: SocketAddrV4,
}

/// The value of a UDP socket, as far as the library depends on it.
#[verifier::ext_equal]
pub struct UdpView {
    pub endpoint: ListenEndpoint,
    pub rx: Seq<Packet>,
    pub tx: Seq<Packet>,
    /// How many bytes of the transmit buffer are in use.
    pub tx_bytes: nat,
    /// How many bytes the transmit buffer has.
    pub tx_capacity: nat,
    /// The sizes of those datagrams that the transmit buffer has room for.
    pub fits: Set<nat>,
}

impl UdpView {
    /// A socket that is not bound and holds nothing.
    pub open spec fn fresh(tx_capacity: nat) -> UdpView {
        UdpView {
            endpoint: unbound(),
            rx: Seq::empty(),
            tx: Seq::empty(),
            tx_bytes: 0,
            tx_capacity,
            fits: Set::new(|n: nat| n <= tx_capacity),
        }
    }
}

/// The value of a socket.
pub enum SocketView {
    Tcp(TcpView),
    Udp(UdpView),
}

/// The sockets of a set.
pub uninterp spec fn sockets_of(set: SocketSet<'static>) -> Map<SocketHandle, SocketView>;

/// The set of no sockets.
pub open spec fn no_sockets() -> Map<SocketHandle, SocketView> {
    Map::empty()
}

/// Whether a handle leads to a TCP socket.
pub open spec fn is_tcp(sockets: Map<SocketHandle, SocketView>, h: SocketHandle) -> bool {
    sockets.contains_key(h) && sockets[h] is Tcp
}

/// Whether a handle leads to a UDP socket.
pub open spec fn is_udp(sockets: Map<SocketHandle, SocketView>, h: SocketHandle) -> bool {
    sockets.contains_key(h) && sockets[h] is Udp
}

/// The TCP socket that a handle leads to.
pub open spec fn tcp_at(sockets: Map<SocketHandle, SocketView>, h: SocketHandle) -> TcpView {
    sockets[h]->Tcp_0
}

/// The UDP socket that a handle leads to.
pub open spec fn udp_at(sockets: Map<SocketHandle, SocketView>, h: SocketHandle) -> UdpView {
    sockets[h]->Udp_0
}

/// The sockets with one TCP socket replaced.
pub open spec fn with_tcp(
    sockets: Map<SocketHandle, SocketView>,
    h: SocketHandle,
    v: TcpView,
) -> Map<SocketHandle, SocketView> {
    sockets.insert(h, SocketView::Tcp(v))
}

/// The sockets with one UDP socket replaced.
pub open spec fn with_udp(
    sockets: Map<SocketHandle, SocketView>,
    h: SocketHandle,
    v: UdpView,
) -> Map<SocketHandle, SocketView> {
    sockets.insert(h, SocketView::Udp(v))
}

/// [`smoltcp::iface::SocketSet::new`]: a set of no sockets.
#[verifier::external_body]
pub(crate) fn new_set() -> (r: SocketSet<'static>)
    ensures
        sockets_of(r) == no_sockets(),
{
    SocketSet::new(vec![])
}

/// [`smoltcp::iface::SocketSet::add`] of a [`smoltcp::socket::tcp::Socket::new`]: a closed socket
/// under a handle that was not in use. Its buffers can be at most 1 GiB.
#[verifier::external_body]
pub(crate) fn add_tcp(set: &mut SocketSet<'static>, buffer_size: usize) -> (r: SocketHandle)
    requires
        buffer_size <= 0x4000_0000,
    ensures
        !sockets_of(*old(set)).contains_key(r),
        sockets_of(*final(set)) == with_tcp(
            sockets_of(*old(set)),
            r,
            TcpView::fresh(buffer_size as nat),
        ),
{
    set.add(
        tcp::Socket::new(
            RingBuffer::new(vec![0u8; buffer_size]),
            RingBuffer::new(vec![0u8; buffer_size]),
        ),
    )
}

/// [`smoltcp::iface::SocketSet::add`] of a [`smoltcp::socket::udp::Socket::new`]: an unbound
/// socket under a handle that was not in use.
#[verifier::external_body]
pub(crate) fn add_udp(set: &mut SocketSet<'static>, packets: usize, buffer_size: usize) -> (r:
    SocketHandle)
    requires
        0 < packets <= 0x1_0000,
        buffer_size <= 0x4000_0000,
    ensures
        !sockets_of(*old(set)).contains_key(r),
        sockets_of(*final(set)) == with_udp(
            sockets_of(*old(set)),
            r,
            UdpView::fresh(buffer_size as nat),
        ),
{
    set.add(
        udp::Socket::new(
            PacketBuffer::new(vec![PacketMetadata::EMPTY; packets], vec![0u8; buffer_size]),
            PacketBuffer::new(vec![PacketMetadata::EMPTY; packets], vec![0u8; buffer_size]),
        ),
    )
}

/// [`smoltcp::iface::SocketSet::remove`]: the socket leaves the set.
#[verifier::external_body]
pub(crate) fn remove(set: &mut SocketSet<'static>, h: SocketHandle)
    requires
        sockets_of(*old(set)).contains_key(h),
    ensures
        sockets_of(*final(set)) == sockets_of(*old(set)).remove(h),
{
    let _ = set.remove(h);
}

/// [`smoltcp::socket::tcp::Socket::state`]: the state of the socket.
#[verifier::external_body]
pub(crate) fn tcp_state(set: &SocketSet<'static>, h: SocketHandle) -> (r: TcpState)
    requires
        is_tcp(sockets_of(*set), h),
    ensures
        r == tcp_at(sockets_of(*set), h).state,
{
    match set.get::<tcp::Socket>(h).state() {
        tcp::State::Closed => TcpState::Closed,
        tcp::State::Listen => TcpState::Listen,
        tcp::State::SynSent => TcpState::SynSent,
        tcp::State::SynReceived => TcpState::SynReceived,
        tcp::State::Established => TcpState::Established,
        tcp::State::FinWait1 => TcpState::FinWait1,
        tcp::State::FinWait2 => TcpState::FinWait2,
        tcp::State::CloseWait => TcpState::CloseWait,
        tcp::State::Closing => TcpState::Closing,
        tcp::State::LastAck => TcpState::LastAck,
        tcp::State::TimeWait => TcpState::TimeWait,
    }
}

/// [`smoltcp::socket::tcp::Socket::is_open`]: whether the socket is open.
#[verifier::external_body]
pub(crate) fn tcp_is_open(set: &SocketSet<'static>, h: SocketHandle) -> (r: bool)
    requires
        is_tcp(sockets_of(*set), h),
    ensures
        r == tcp_at(sockets_of(*set), h).state.is_open(),
{
    set.get::<tcp::Socket>(h).is_open()
}

/// [`smoltcp::socket::tcp::Socket::may_send`]: whether the transmit half is open.
#[verifier::external_body]
pub(crate) fn tcp_may_send(set: &SocketSet<'static>, h: SocketHandle) -> (r: bool)
    requires
        is_tcp(sockets_of(*set), h),
    ensures
        r == tcp_at(sockets_of(*set), h).state.may_send(),
{
    set.get::<tcp::Socket>(h).may_send()
}

/// [`smoltcp::socket::tcp::Socket::can_send`]: whether the transmit half is open and its buffer is
/// not full.
#[verifier::external_body]
pub(crate) fn tcp_can_send(set: &SocketSet<'static>, h: SocketHandle) -> (r: bool)
    requires
        is_tcp(sockets_of(*set), h),
    ensures
        r == (tcp_at(sockets_of(*set), h).state.may_send() && tcp_at(sockets_of(*set), h).tx.len()
            != tcp_at(sockets_of(*set), h).tx_capacity),
{
    set.get::<tcp::Socket>(h).can_send()
}

/// [`smoltcp::socket::tcp::Socket::can_recv`]: whether there is something to read.
#[verifier::external_body]
pub(crate) fn tcp_can_recv(set: &SocketSet<'static>, h: SocketHandle) -> (r: bool)
    requires
        is_tcp(sockets_of(*set), h),
    ensures
        r == (tcp_at(sockets_of(*set), h).rx.len() > 0),
{
    set.get::<tcp::Socket>(h).can_recv()
}

/// [`smoltcp::socket::tcp::Socket::send_queue`]: how many bytes have not been sent and
/// acknowledged.
#[verifier::external_body]
pub(crate) fn tcp_send_queue(set: &SocketSet<'static>, h: SocketHandle) -> (r: usize)
    requires
        is_tcp(sockets_of(*set), h),
    ensures
        r == tcp_at(sockets_of(*set), h).tx.len(),
{
    set.get::<tcp::Socket>(h).send_queue()
}

/// [`smoltcp::socket::tcp::Socket::local_endpoint`]: the local end of the connection.
#[verifier::external_body]
pub(crate) fn tcp_local_endpoint(set: &SocketSet<'static>, h: SocketHandle) -> (r: Option<
    SocketAddrV4,
>)
    requires
        is_tcp(sockets_of(*set), h),
    ensures
        r == match tcp_at(sockets_of(*set), h).ends {
            Some((local, _)) => Some(local),
            None => None,
        },
{
    let end = set.get::<tcp::Socket>(h).local_endpoint()?;
    let IpAddress::Ipv4(ip) = end.addr;
    Some(SocketAddrV4 { ip: ip.to_bits(), port: end.port })
}

/// [`smoltcp::socket::tcp::Socket::remote_endpoint`]: the remote end of the connection.
#[verifier::external_body]
pub(crate) fn tcp_remote_endpoint(set: &SocketSet<'static>, h: SocketHandle) -> (r: Option<
    SocketAddrV4,
>)
    requires
        is_tcp(sockets_of(*set), h),
    ensures
        r == match tcp_at(sockets_of(*set), h).ends {
            Some((_, remote)) => Some(remote),
            None => None,
        },
{
    let end = set.get::<tcp::Socket>(h).remote_endpoint()?;
    let IpAddress::Ipv4(ip) = end.addr;
    Some(SocketAddrV4 { ip: ip.to_bits(), port: end.port })
}

/// Why a TCP socket could not connect.
#[derive(Clone, Copy, Debug, PartialEq, Eq, Structural)]
pub enum TcpConnectError {
    InvalidState,
    Unaddressable,
}

/// What connecting does, given the address that connections come from.
pub open spec fn tcp_connects(
    before: Map<SocketHandle, SocketView>,
    h: SocketHandle,
    source: Option<u32>,
    remote: SocketAddrV4,
    local_port: u16,
    after: Map<SocketHandle, SocketView>,
    r: Result<(), TcpConnectError>,
) -> bool {
    if tcp_at(before, h).state.is_open() {
        after == before && r == Err::<(), TcpConnectError>(TcpConnectError::InvalidState)
    } else if remote.port == 0 || remote.ip == 0 || local_port == 0 || source is None {
        after == before && r == Err::<(), TcpConnectError>(TcpConnectError::Unaddressable)
    } else {
        &&& r == Ok::<(), TcpConnectError>(())
        &&& after == with_tcp(
            before,
            h,
            tcp_at(before, h).connecting(
                SocketAddrV4 { ip: source->Some_0, port: local_port },
                remote,
            ),
        )
    }
}

/// [`smoltcp::socket::tcp::Socket::connect`]: a socket that is not open starts to connect, unless
/// the remote end has no address or port, or the interface has no address to connect from.
#[verifier::external_body]
pub(crate) fn tcp_connect(
    set: &mut SocketSet<'static>,
    interface: &mut Interface,
    h: SocketHandle,
    remote: SocketAddrV4,
    local_port: u16,
) -> (r: Result<(), TcpConnectError>)
    requires
        is_tcp(sockets_of(*old(set)), h),
    ensures
        tcp_connects(
            sockets_of(*old(set)),
            h,
            source_address(interface_addrs(*old(interface))),
            remote,
            local_port,
            sockets_of(*final(set)),
            r,
        ),
        interface_addrs(*final(interface)) == interface_addrs(*old(interface)),
        interface_routes(*final(interface)) == interface_routes(*old(interface)),
{
    let addr = IpAddress::Ipv4(Ipv4Address::from_bits(remote.ip));
    let remote = IpEndpoint::new(addr, remote.port);
    let socket = set.get_mut::<tcp::Socket>(h);
    socket.connect(interface.context(), remote, local_port).map_err(|e| match e {
        tcp::ConnectError::InvalidState => TcpConnectError::InvalidState,
        tcp::ConnectError::Unaddressable => TcpConnectError::Unaddressable,
    })
}

/// [`smoltcp::socket::tcp::Socket::listen`]: a socket that is not open starts to listen on an
/// endpoint with a port.
#[verifier::external_body]
pub(crate) fn tcp_listen(set: &mut SocketSet<'static>, h: SocketHandle, endpoint: ListenEndpoint)
    requires
        is_tcp(sockets_of(*old(set)), h),
        !tcp_at(sockets_of(*old(set)), h).state.is_open(),
        endpoint.port != 0,
    ensures
        sockets_of(*final(set)) == with_tcp(
            sockets_of(*old(set)),
            h,
            tcp_at(sockets_of(*old(set)), h).listening(endpoint),
        ),
{
    let addr = endpoint.addr.map(|ip| IpAddress::Ipv4(Ipv4Address::from_bits(ip)));
    let endpoint = IpListenEndpoint { addr, port: endpoint.port };
    set.get_mut::<tcp::Socket>(h).listen(endpoint).expect("a closed socket can listen");
}

/// [`smoltcp::socket::tcp::Socket::close`]: the transmit half is closed.
#[verifier::external_body]
pub(crate) fn tcp_close(set: &mut SocketSet<'static>, h: SocketHandle)
    requires
        is_tcp(sockets_of(*old(set)), h),
    ensures
        sockets_of(*final(set)) == with_tcp(
            sockets_of(*old(set)),
            h,
            (TcpView {
                state: tcp_at(sockets_of(*old(set)), h).state.closed(),
                ..tcp_at(sockets_of(*old(set)), h)
            }),
        ),
{
    set.get_mut::<tcp::Socket>(h).close();
}

/// [`smoltcp::socket::tcp::Socket::abort`]: the socket is closed at once.
#[verifier::external_body]
pub(crate) fn tcp_abort(set: &mut SocketSet<'static>, h: SocketHandle)
    requires
        is_tcp(sockets_of(*old(set)), h),
    ensures
        sockets_of(*final(set)) == with_tcp(
            sockets_of(*old(set)),
            h,
            (TcpView { state: TcpState::Closed, ..tcp_at(sockets_of(*old(set)), h) }),
        ),
{
    set.get_mut::<tcp::Socket>(h).abort();
}

/// What sending on a TCP socket does. `None` stands for a socket that cannot send in its state.
pub open spec fn tcp_sends(
    before: Map<SocketHandle, SocketView>,
    h: SocketHandle,
    data: Seq<u8>,
    after: Map<SocketHandle, SocketView>,
    r: Option<usize>,
) -> bool {
    let v = tcp_at(before, h);
    let n = smaller(data.len(), (v.tx_capacity - v.tx.len()) as nat) as int;
    if v.state.may_send() {
        &&& r is Some
        &&& r->Some_0 == n
        &&& after == with_tcp(before, h, TcpView { tx: v.tx + data.take(n), ..v })
    } else {
        r is None && after == before
    }
}

/// [`smoltcp::socket::tcp::Socket::send_slice`]: as much of the start of `data` as there is room
/// for is queued for sending, if the transmit half is open.
#[verifier::external_body]
pub(crate) fn tcp_send(set: &mut SocketSet<'static>, h: SocketHandle, data: &[u8]) -> (r: Option<
    usize,
>)
    requires
        is_tcp(sockets_of(*old(set)), h),
    ensures
        tcp_sends(sockets_of(*old(set)), h, data@, sockets_of(*final(set)), r),
        r is Some ==> r->Some_0 <= data@.len(),
{
    set.get_mut::<tcp::Socket>(h).send_slice(data).ok()
}

/// Why nothing could be received from a TCP socket.
#[derive(Clone, Copy, Debug, PartialEq, Eq, Structural)]
pub enum TcpRecvError {
    InvalidState,
    Finished,
}

/// The error on a socket that has nothing to receive and never will.
pub open spec fn recv_error(v: TcpView) -> TcpRecvError {
    if v.rx_finished {
        TcpRecvError::Finished
    } else {
        TcpRecvError::InvalidState
    }
}

/// What receiving `n` bytes from a TCP socket does.
pub open spec fn tcp_receives(
    before: Map<SocketHandle, SocketView>,
    h: SocketHandle,
    after: Map<SocketHandle, SocketView>,
    r: Result<usize, TcpRecvError>,
) -> bool {
    let v = tcp_at(before, h);
    match r {
        Ok(n) => {
            &&& v.may_recv()
            &&& n <= v.rx.len()
            &&& after == with_tcp(before, h, TcpView { rx: v.rx.skip(n as int), ..v })
        },
        Err(e) => !v.may_recv() && e == recv_error(v) && after == before,
    }
}

/// [`smoltcp::socket::tcp::Socket::recv_slice`]: as many received bytes as `buf` has room for are
/// taken from the socket and copied to the start of `buf`.
#[verifier::external_body]
pub(crate) fn tcp_recv(set: &mut SocketSet<'static>, h: SocketHandle, buf: &mut [u8]) -> (r: Result<
    usize,
    TcpRecvError,
>)
    requires
        is_tcp(sockets_of(*old(set)), h),
    ensures
        tcp_receives(sockets_of(*old(set)), h, sockets_of(*final(set)), r),
        r is Ok ==> r->Ok_0 == smaller(
            old(buf)@.len(),
            tcp_at(sockets_of(*old(set)), h).rx.len(),
        ) && final(buf)@ == tcp_at(sockets_of(*old(set)), h).rx.take(r->Ok_0 as int) + old(
            buf,
        )@.skip(r->Ok_0 as int),
        r is Err ==> final(buf)@ == old(buf)@,
{
    set.get_mut::<tcp::Socket>(h).recv_slice(buf).map_err(|e| match e {
        tcp::RecvError::InvalidState => TcpRecvError::InvalidState,
        tcp::RecvError::Finished => TcpRecvError::Finished,
    })
}

/// How many of the received bytes of a TCP socket lie in one piece, from the eldest one on.
pub uninterp spec fn first_piece(set: SocketSet<'static>, h: SocketHandle) -> nat;

/// [`smoltcp::socket::tcp::Socket::recv`] with a function that takes all it is given: the received
/// bytes that lie in one piece are thrown away. There is such a piece if there are any bytes, and
/// what is left lies in one piece. A receive buffer has at most 1 GiB.
#[verifier::external_body]
pub(crate) fn tcp_discard(set: &mut SocketSet<'static>, h: SocketHandle) -> (r: Result<
    usize,
    TcpRecvError,
>)
    requires
        is_tcp(sockets_of(*old(set)), h),
    ensures
        tcp_receives(sockets_of(*old(set)), h, sockets_of(*final(set)), r),
        r is Ok ==> r->Ok_0 == first_piece(*old(set), h),
        r is Ok ==> (r->Ok_0 == 0 <==> tcp_at(sockets_of(*old(set)), h).rx.len() == 0),
        r is Ok ==> r->Ok_0 <= 0x4000_0000,
        r is Ok ==> first_piece(*final(set), h) == tcp_at(sockets_of(*final(set)), h).rx.len(),
{
    set.get_mut::<tcp::Socket>(h).recv(|data| (data.len(), data.len())).map_err(|e| match e {
        tcp::RecvError::InvalidState => TcpRecvError::InvalidState,
        tcp::RecvError::Finished => TcpRecvError::Finished,
    })
}

/// [`smoltcp::socket::tcp::Socket::set_timeout`]: the timeout, in microseconds.
#[verifier::external_body]
pub(crate) fn tcp_set_timeout(set: &mut SocketSet<'static>, h: SocketHandle, timeout: Option<u64>)
    requires
        is_tcp(sockets_of(*old(set)), h),
    ensures
        sockets_of(*final(set)) == with_tcp(
            sockets_of(*old(set)),
            h,
            (TcpView { timeout, ..tcp_at(sockets_of(*old(set)), h) }),
        ),
{
    set.get_mut::<tcp::Socket>(h).set_timeout(timeout.map(Duration::from_micros));
}

/// [`smoltcp::socket::tcp::Socket::nagle_enabled`]: whether the Nagle algorithm is used.
#[verifier::external_body]
pub(crate) fn tcp_nagle_enabled(set: &SocketSet<'static>, h: SocketHandle) -> (r: bool)
    requires
        is_tcp(sockets_of(*set), h),
    ensures
        r == tcp_at(sockets_of(*set), h).nagle,
{
    set.get::<tcp::Socket>(h).nagle_enabled()
}

/// [`smoltcp::socket::tcp::Socket::set_nagle_enabled`]: whether the Nagle algorithm is used from
/// now on.
#[verifier::external_body]
pub(crate) fn tcp_set_nagle_enabled(set: &mut SocketSet<'static>, h: SocketHandle, nagle: bool)
    requires
        is_tcp(sockets_of(*old(set)), h),
    ensures
        sockets_of(*final(set)) == with_tcp(
            sockets_of(*old(set)),
            h,
            (TcpView { nagle, ..tcp_at(sockets_of(*old(set)), h) }),
        ),
{
    set.get_mut::<tcp::Socket>(h).set_nagle_enabled(nagle);
}

/// [`smoltcp::socket::tcp::Socket::keep_alive`]: the interval between keep-alive messages, in
/// microseconds.
#[verifier::external_body]
pub(crate) fn tcp_keep_alive(set: &SocketSet<'static>, h: SocketHandle) -> (r: Option<u64>)
    requires
        is_tcp(sockets_of(*set), h),
    ensures
        r == tcp_at(sockets_of(*set), h).keep_alive,
{
    set.get::<tcp::Socket>(h).keep_alive().map(|d| d.total_micros())
}

/// [`smoltcp::socket::tcp::Socket::set_keep_alive`]: the interval between keep-alive messages, in
/// microseconds.
#[verifier::external_body]
pub(crate) fn tcp_set_keep_alive(
    set: &mut SocketSet<'static>,
    h: SocketHandle,
    keep_alive: Option<u64>,
)
    requires
        is_tcp(sockets_of(*old(set)), h),
    ensures
        sockets_of(*final(set)) == with_tcp(
            sockets_of(*old(set)),
            h,
            (TcpView { keep_alive, ..tcp_at(sockets_of(*old(set)), h) }),
        ),
{
    set.get_mut::<tcp::Socket>(h).set_keep_alive(keep_alive.map(Duration::from_micros));
}

/// [`smoltcp::socket::tcp::Socket::set_congestion_control`] with no congestion control: nothing
/// that the library depends on changes.
#[verifier::external_body]
pub(crate) fn tcp_set_no_congestion_control(set: &mut SocketSet<'static>, h: SocketHandle)
    requires
        is_tcp(sockets_of(*old(set)), h),
    ensures
        sockets_of(*final(set)) == sockets_of(*old(set)),
{
    set.get_mut::<tcp::Socket>(h).set_congestion_control(tcp::CongestionControl::None);
}

/// [`smoltcp::socket::tcp::Socket::congestion_control`]: the congestion control of the socket. No
/// other than none is built in.
#[verifier::external_body]
pub(crate) fn tcp_congestion_control(set: &SocketSet<'static>, h: SocketHandle) -> (r:
    CongestionControl)
    requires
        is_tcp(sockets_of(*set), h),
    ensures
        r is NoControl,
{
    match set.get::<tcp::Socket>(h).congestion_control() {
        tcp::CongestionControl::None => CongestionControl::NoControl,
    }
}

/// [`smoltcp::socket::udp::Socket::is_open`]: whether the socket is bound.
#[verifier::external_body]
pub(crate) fn udp_is_open(set: &SocketSet<'static>, h: SocketHandle) -> (r: bool)
    requires
        is_udp(sockets_of(*set), h),
    ensures
        r == (udp_at(sockets_of(*set), h).endpoint.port != 0),
{
    set.get::<udp::Socket>(h).is_open()
}

/// [`smoltcp::socket::udp::Socket::endpoint`]: what the socket is bound to.
#[verifier::external_body]
pub(crate) fn udp_endpoint(set: &SocketSet<'static>, h: SocketHandle) -> (r: ListenEndpoint)
    requires
        is_udp(sockets_of(*set), h),
    ensures
        r == udp_at(sockets_of(*set), h).endpoint,
{
    let end = set.get::<udp::Socket>(h).endpoint();
    let addr = end.addr.map(|IpAddress::Ipv4(ip)| ip.to_bits());
    ListenEndpoint { addr, port: end.port }
}

/// [`smoltcp::socket::udp::Socket::bind`]: an unbound socket is bound to an endpoint with a port.
/// The result says whether it was unbound.
#[verifier::external_body]
pub(crate) fn udp_bind(set: &mut SocketSet<'static>, h: SocketHandle, endpoint: ListenEndpoint) -> (r:
    bool)
    requires
        is_udp(sockets_of(*old(set)), h),
        endpoint.port != 0,
    ensures
        r == (udp_at(sockets_of(*old(set)), h).endpoint.port == 0),
        sockets_of(*final(set)) == if r {
            with_udp(
                sockets_of(*old(set)),
                h,
                (UdpView { endpoint, ..udp_at(sockets_of(*old(set)), h) }),
            )
        } else {
            sockets_of(*old(set))
        },
{
    let addr = endpoint.addr.map(|ip| IpAddress::Ipv4(Ipv4Address::from_bits(ip)));
    let endpoint = IpListenEndpoint { addr, port: endpoint.port };
    set.get_mut::<udp::Socket>(h).bind(endpoint).is_ok()
}

/// [`smoltcp::socket::udp::Socket::close`]: the socket is unbound and holds nothing.
#[verifier::external_body]
pub(crate) fn udp_close(set: &mut SocketSet<'static>, h: SocketHandle)
    requires
        is_udp(sockets_of(*old(set)), h),
    ensures
        sockets_of(*final(set)) == with_udp(
            sockets_of(*old(set)),
            h,
            UdpView::fresh(udp_at(sockets_of(*old(set)), h).tx_capacity),
        ),
{
    set.get_mut::<udp::Socket>(h).close();
}

/// [`smoltcp::socket::udp::Socket::send_queue`]: how many bytes of the transmit buffer are in use.
#[verifier::external_body]
pub(crate) fn udp_send_queue(set: &SocketSet<'static>, h: SocketHandle) -> (r: usize)
    requires
        is_udp(sockets_of(*set), h),
    ensures
        r == udp_at(sockets_of(*set), h).tx_bytes,
{
    set.get::<udp::Socket>(h).send_queue()
}

/// [`smoltcp::socket::udp::Socket::payload_send_capacity`]: how many bytes the transmit buffer has.
#[verifier::external_body]
pub(crate) fn udp_send_capacity(set: &SocketSet<'static>, h: SocketHandle) -> (r: usize)
    requires
        is_udp(sockets_of(*set), h),
    ensures
        r == udp_at(sockets_of(*set), h).tx_capacity,
{
    set.get::<udp::Socket>(h).payload_send_capacity()
}

/// [`smoltcp::socket::udp::Socket::can_send`]: whether the transmit buffer is not full. A full one
/// has no room for any datagram; one that is not full need not have room for any either.
#[verifier::external_body]
pub(crate) fn udp_can_send(set: &SocketSet<'static>, h: SocketHandle) -> (r: bool)
    requires
        is_udp(sockets_of(*set), h),
    ensures
        !r ==> udp_at(sockets_of(*set), h).fits == Set::<nat>::empty(),
{
    set.get::<udp::Socket>(h).can_send()
}

/// [`smoltcp::socket::udp::Socket::can_recv`]: whether the receive buffer is not empty. It can
/// also hold padding that is no datagram.
#[verifier::external_body]
pub(crate) fn udp_can_recv(set: &SocketSet<'static>, h: SocketHandle) -> (r: bool)
    requires
        is_udp(sockets_of(*set), h),
    ensures
        udp_at(sockets_of(*set), h).rx.len() > 0 ==> r,
{
    set.get::<udp::Socket>(h).can_recv()
}

/// Why a datagram could not be sent.
#[derive(Clone, Copy, Debug, PartialEq, Eq, Structural)]
pub enum UdpSendError {
    Unaddressable,
    BufferFull,
}

/// What sending a datagram does, where the destination is one that can be sent to. What the
/// transmit buffer has room for afterwards depends on where in it the datagrams lie. Looking for
/// room can use some up, but a datagram that there was no room for still has none.
pub open spec fn udp_queues(
    before: Map<SocketHandle, SocketView>,
    h: SocketHandle,
    data: Seq<u8>,
    to: SocketAddrV4,
    after: Map<SocketHandle, SocketView>,
    r: Result<(), UdpSendError>,
) -> bool {
    let v = udp_at(before, h);
    &&& r is Ok <==> v.fits.contains(data.len())
    &&& r is Ok ==> v.tx_bytes + data.len() <= v.tx_capacity
    &&& v.tx.len() == 0 && v.tx_bytes == 0 ==> (r is Ok <==> data.len() <= v.tx_capacity)
    &&& exists|tx_bytes: nat, fits: Set<nat>| {
        &&& tx_bytes >= v.tx_bytes
        &&& match r {
            Ok(()) => tx_bytes >= v.tx_bytes + data.len() && after == #[trigger] with_udp(
                before,
                h,
                UdpView { tx: v.tx.push(Packet { data, addr: to }), tx_bytes, fits, ..v },
            ),
            Err(e) => e == UdpSendError::BufferFull && !fits.contains(data.len()) && after
                == with_udp(before, h, UdpView { tx_bytes, fits, ..v }),
        }
    }
}

/// Whether a socket can send to a destination: it is bound, and the destination has an address and
/// a port.
pub open spec fn can_address(v: UdpView, to: SocketAddrV4) -> bool {
    v.endpoint.port != 0 && to.ip != 0 && to.port != 0
}

/// What sending a datagram does.
pub open spec fn udp_sends(
    before: Map<SocketHandle, SocketView>,
    h: SocketHandle,
    data: Seq<u8>,
    to: SocketAddrV4,
    after: Map<SocketHandle, SocketView>,
    r: Result<(), UdpSendError>,
) -> bool {
    if !can_address(udp_at(before, h), to) {
        r is Err && r->Err_0 == UdpSendError::Unaddressable && after == before
    } else {
        udp_queues(before, h, data, to, after, r)
    }
}

/// [`smoltcp::socket::udp::Socket::send_slice`]: the datagram is queued for sending, if the socket
/// is bound, the destination has an address and a port, and there is room.
#[verifier::external_body]
pub(crate) fn udp_send(
    set: &mut SocketSet<'static>,
    h: SocketHandle,
    data: &[u8],
    to: SocketAddrV4,
) -> (r: Result<(), UdpSendError>)
    requires
        is_udp(sockets_of(*old(set)), h),
    ensures
        udp_sends(sockets_of(*old(set)), h, data@, to, sockets_of(*final(set)), r),
{
    let to = IpEndpoint::new(IpAddress::Ipv4(Ipv4Address::from_bits(to.ip)), to.port);
    set.get_mut::<udp::Socket>(h).send_slice(data, to).map_err(|e| match e {
        udp::SendError::Unaddressable => UdpSendError::Unaddressable,
        udp::SendError::BufferFull => UdpSendError::BufferFull,
    })
}

/// [`smoltcp::socket::udp::Socket::recv`]: the eldest received datagram, with its source, is taken
/// from the socket, if there is one.
#[verifier::external_body]
pub(crate) fn udp_recv(set: &mut SocketSet<'static>, h: SocketHandle) -> (r: Option<
    (Vec<u8>, SocketAddrV4),
>)
    requires
        is_udp(sockets_of(*old(set)), h),
    ensures
        r is Some <==> udp_at(sockets_of(*old(set)), h).rx.len() > 0,
        r is Some ==> r->Some_0.0@ == udp_at(sockets_of(*old(set)), h).rx[0].data && r->Some_0.1
            == udp_at(sockets_of(*old(set)), h).rx[0].addr,
        sockets_of(*final(set)) == if r is Some {
            with_udp(
                sockets_of(*old(set)),
                h,
                (UdpView {
                    rx: udp_at(sockets_of(*old(set)), h).rx.skip(1),
                    ..udp_at(sockets_of(*old(set)), h)
                }),
            )
        } else {
            sockets_of(*old(set))
        },
{
    let (data, meta) = set.get_mut::<udp::Socket>(h).recv().ok()?;
    let IpAddress::Ipv4(ip) = meta.endpoint.addr;
    Some((data.to_vec(), SocketAddrV4 { ip: ip.to_bits(), port: meta.endpoint.port }))
}

/// The longest timeout of a TCP socket, in microseconds.
pub const TIMEOUT_LIMIT: u64 = 75_000_000;

/// Whether no TCP socket has a longer timeout than the longest one there is to be.
pub open spec fn have_bounded_timeouts(sockets: Map<SocketHandle, SocketView>) -> bool {
    forall|h: SocketHandle|
        sockets.contains_key(h) && (#[trigger] sockets[h]) is Tcp && tcp_at(sockets, h).timeout is Some
            ==> tcp_at(sockets, h).timeout->Some_0 <= TIMEOUT_LIMIT
}

/// When an interface with a set of sockets wants to be polled next, in microseconds, if at all.
pub uninterp spec fn poll_time(
    interface: Interface,
    now: i64,
    set: SocketSet<'static>,
) -> Option<i64>;

/// [`smoltcp::iface::Interface::poll_at`]: when the interface wants to be polled next, in
/// microseconds, if at all. That follows from the interface, the time and the sockets. A timeout
/// is added to the time at which a socket was last heard of, so it must be bounded.
#[verifier::external_body]
pub(crate) fn interface_poll_at(
    interface: &mut Interface,
    now: i64,
    set: &SocketSet<'static>,
) -> (r: Option<i64>)
    requires
        have_bounded_timeouts(sockets_of(*set)),
    ensures
        r == poll_time(*old(interface), now, *set),
        interface_addrs(*final(interface)) == interface_addrs(*old(interface)),
        interface_routes(*final(interface)) == interface_routes(*old(interface)),
{
    interface.poll_at(Instant::from_micros(now), set).map(|at| at.total_micros())
}

} // verus!
