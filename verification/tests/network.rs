use litebox::event::Events;
use litebox::net::errors::{
    AcceptError, BindError, CloseError, ConnectError, GetTcpOptionError, ListenError,
    LocalAddrError, ReceiveError, RemoteAddrError, SendError, SetTcpOptionError, SocketAsyncError,
    SocketError,
};
use litebox::net::network::{CloseOutcome, Network, SocketFd};
use litebox::net::socket_channel::{
    DatagramSocketChannel, NetworkProxy, SocketState, StreamSocketChannel,
};
use litebox::net::{
    CloseBehavior, CongestionControl, PlatformInteraction, PlatformInteractionReinvocationAdvice,
    Protocol, ReceiveFlags, SendFlags, SocketAddr, SocketAddrV4, SocketAddrV6, TcpOptionData,
    TcpOptionName,
};
use smoltcp::iface::{Config, Interface};
use smoltcp::phy::{Loopback, Medium};
use smoltcp::time::Instant;
use smoltcp::wire::{HardwareAddress, IpAddress, IpCidr, Ipv4Address};

/// The address of the interface.
const OWN: u32 = 0x0a00_0002;

fn at(port: u16) -> SocketAddr {
    SocketAddr::V4(SocketAddrV4 { ip: OWN, port })
}

fn v6(port: u16) -> SocketAddr {
    SocketAddr::V6(SocketAddrV6 { ip: 1, port })
}

/// A network that is connected to itself.
struct Looped {
    net: Network,
    device: Loopback,
    now: i64,
}

impl Looped {
    fn new() -> Looped {
        let mut device = Loopback::new(Medium::Ip);
        let config = Config::new(HardwareAddress::Ip);
        let interface = Interface::new(config, &mut device, Instant::from_micros(0));
        Looped { net: Network::try_new(interface).unwrap(), device, now: 0 }
    }

    /// Lets packets go to and fro for a while.
    fn poll(&mut self) {
        for _ in 0..20 {
            self.now += 1000;
            self.net.prepare_for_poll(self.now);
            self.net.interface.poll(
                Instant::from_micros(self.now),
                &mut self.device,
                &mut self.net.socket_set,
            );
        }
        self.net.prepare_for_poll(self.now);
    }

    fn listener(&mut self, port: u16) -> SocketFd {
        let fd = self.net.socket(Protocol::Tcp).unwrap();
        self.net.bind(&fd, &at(port)).unwrap();
        self.net.listen(&fd, 2).unwrap();
        fd
    }

    /// A connection to a port: the end of the client, and that of the server.
    fn connection(&mut self, listener: &SocketFd, port: u16) -> (SocketFd, SocketFd) {
        let client = self.net.socket(Protocol::Tcp).unwrap();
        assert_eq!(
            self.net.connect(&client, &at(port), false, self.now),
            Err(ConnectError::InProgress)
        );
        assert!(matches!(
            self.net.accept(listener, None),
            Err(AcceptError::NoConnectionsReady)
        ));
        self.poll();
        assert_eq!(self.net.connect(&client, &at(port), true, self.now), Ok(()));
        let mut peer = at(0);
        let server = self.net.accept(listener, Some(&mut peer)).unwrap();
        assert_eq!(Ok(peer), self.net.get_local_addr(&client));
        (client, server)
    }
}

#[test]
fn a_connection_carries_bytes() {
    let mut l = Looped::new();
    let listener = l.listener(80);
    let (client, server) = l.connection(&listener, 80);
    assert_eq!(l.net.get_remote_addr(&client), Ok(at(80)));
    assert_eq!(l.net.get_local_addr(&server), Ok(at(80)));
    assert_eq!(l.net.get_remote_addr(&server), l.net.get_local_addr(&client).map_err(|_| {
        RemoteAddrError::InvalidFd
    }));

    let none = SendFlags::empty();
    assert_eq!(l.net.send(&client, b"hello", none, None), Ok(5));
    let mut buf = [0u8; 16];
    assert_eq!(l.net.receive(&server, &mut buf, ReceiveFlags::empty(), None), Ok(0));
    l.poll();
    assert_eq!(l.net.receive(&server, &mut buf[..2], ReceiveFlags::empty(), None), Ok(2));
    assert_eq!(&buf[..2], b"he");
    assert_eq!(l.net.receive(&server, &mut buf, ReceiveFlags::empty(), None), Ok(3));
    assert_eq!(&buf[..3], b"llo");
    // And back
    assert_eq!(l.net.send(&server, b"back", none, None), Ok(4));
    l.poll();
    let discard = ReceiveFlags { bits: ReceiveFlags::DISCARD };
    assert_eq!(l.net.receive(&client, &mut buf, discard, None), Ok(4));
    assert!(matches!(
        l.net.send(&client, b"x", none, Some(at(80))),
        Err(SendError::UnnecessaryDestinationAddress)
    ));

    // Closing in the background
    assert!(l.net.close(&client, CloseBehavior::Graceful).unwrap().is_none());
    assert!(!l.net.is_open(&client));
    l.poll();
    assert!(matches!(
        l.net.receive(&server, &mut buf, ReceiveFlags::empty(), None),
        Err(ReceiveError::OperationFinished)
    ));
    assert!(l.net.close(&server, CloseBehavior::Immediate).is_ok());
    assert!(l.net.close(&listener, CloseBehavior::Immediate).is_ok());
}

#[test]
fn discarding_what_was_received_last() {
    let mut l = Looped::new();
    let listener = l.listener(80);
    let (client, server) = l.connection(&listener, 80);
    assert_eq!(l.net.send(&client, b"bye", SendFlags::empty(), None), Ok(3));
    assert!(l.net.close(&client, CloseBehavior::Graceful).unwrap().is_none());
    l.poll();
    let discard = ReceiveFlags { bits: ReceiveFlags::DISCARD };
    let mut buf = [7u8; 4];
    // The second look finds that nothing more will come
    assert_eq!(
        l.net.receive(&server, &mut buf, discard, None),
        Err(ReceiveError::OperationFinished)
    );
    assert_eq!(buf, [7; 4]);
    // What there was is gone
    assert_eq!(
        l.net.receive(&server, &mut buf, ReceiveFlags::empty(), None),
        Err(ReceiveError::OperationFinished)
    );
}

#[test]
fn channels_are_drained() {
    let mut l = Looped::new();
    let listener = l.listener(80);
    let (client, server) = l.connection(&listener, 80);
    let mut c = StreamSocketChannel::new();
    c.set_state(SocketState::Connected);
    c.try_write(b"to the server").unwrap();
    assert!(l.net.set_socket_proxy(&client, NetworkProxy::Stream(c)));
    let mut s = StreamSocketChannel::new();
    s.set_state(SocketState::Connected);
    assert!(l.net.set_socket_proxy(&server, NetworkProxy::Stream(s)));
    l.poll();
    let mut s = l.net.take_socket_proxy(&server).unwrap();
    let mut buf = [0u8; 32];
    let n = s.try_read(&mut buf, ReceiveFlags::empty(), None).unwrap();
    assert_eq!(&buf[..n], b"to the server");
    assert!(l.net.take_socket_proxy(&server).is_none());
    let c = l.net.take_socket_proxy(&client).unwrap();
    assert!(!c.has_pending_tx());
}

#[test]
fn datagrams_are_carried() {
    let mut l = Looped::new();
    let a = l.net.socket(Protocol::Udp).unwrap();
    let b = l.net.socket(Protocol::Udp).unwrap();
    l.net.bind(&a, &at(5000)).unwrap();
    let none = SendFlags::empty();
    assert!(matches!(
        l.net.send(&b, b"x", none, None),
        Err(SendError::DestinationAddressRequired)
    ));
    assert_eq!(l.net.send(&b, b"datagram", none, Some(at(5000))), Ok(8));
    l.poll();
    let mut buf = [0u8; 4];
    let mut source = None;
    let trunc = ReceiveFlags { bits: ReceiveFlags::TRUNC };
    assert_eq!(l.net.receive(&a, &mut buf, trunc, Some(&mut source)), Ok(8));
    assert_eq!(&buf, b"data");
    match source {
        Some(SocketAddr::V4(s)) => {
            assert_eq!(s.ip, OWN);
            assert!(s.port >= 49152);
        }
        other => panic!("unexpected {:?}", other),
    }
    assert_eq!(l.net.receive(&a, &mut buf, ReceiveFlags::empty(), None), Ok(0));

    // Connected, through a channel
    l.net.connect(&b, &at(5000), false, l.now).unwrap();
    assert_eq!(l.net.get_remote_addr(&b), Ok(at(5000)));
    let mut channel = DatagramSocketChannel::new();
    channel.set_connected(true);
    channel.send_to(b"one", None).unwrap();
    channel.send_to(b"two", None).unwrap();
    assert!(l.net.set_socket_proxy(&b, NetworkProxy::Datagram(channel)));
    l.poll();
    assert_eq!(l.net.receive(&a, &mut buf, ReceiveFlags::empty(), None), Ok(3));
    assert_eq!(&buf[..3], b"one");
    assert_eq!(l.net.receive(&a, &mut buf, ReceiveFlags::empty(), None), Ok(3));
    assert_eq!(&buf[..3], b"two");
    let proxy = l.net.close(&b, CloseBehavior::Immediate).unwrap();
    assert!(proxy.is_some());
}

#[test]
fn ports_are_not_shared_by_accident() {
    let mut l = Looped::new();
    let a = l.net.socket(Protocol::Tcp).unwrap();
    let b = l.net.socket(Protocol::Tcp).unwrap();
    l.net.bind(&a, &at(80)).unwrap();
    assert_eq!(l.net.bind(&b, &at(80)), Err(BindError::PortAlreadyInUse(80)));
    assert_eq!(l.net.bind(&a, &at(81)), Err(BindError::AlreadyBound));
    assert_eq!(l.net.bind(&b, &v6(80)), Err(BindError::UnsupportedAddress(v6(80))));
    // A socket that is only bound has no local address yet
    let unspecified = SocketAddr::V4(SocketAddrV4 { ip: 0, port: 0 });
    assert_eq!(l.net.get_local_addr(&a), Ok(unspecified));
    // Once the first is closed, the port is free
    l.net.close(&a, CloseBehavior::Immediate).unwrap();
    assert_eq!(l.net.bind(&b, &at(80)), Ok(()));
}

#[test]
fn closed_descriptors_are_refused() {
    let mut l = Looped::new();
    let fd = l.net.socket(Protocol::Tcp).unwrap();
    l.net.close(&fd, CloseBehavior::Immediate).unwrap();
    let mut buf = [0u8; 1];
    assert!(matches!(
        l.net.close(&fd, CloseBehavior::Immediate),
        Err(CloseError::InvalidFd)
    ));
    assert_eq!(l.net.connect(&fd, &at(1), false, 0), Err(ConnectError::InvalidFd));
    assert_eq!(l.net.bind(&fd, &at(1)), Err(BindError::InvalidFd));
    assert_eq!(l.net.listen(&fd, 1), Err(ListenError::InvalidFd));
    assert!(matches!(l.net.accept(&fd, None), Err(AcceptError::InvalidFd)));
    assert_eq!(
        l.net.send(&fd, b"", SendFlags::empty(), None),
        Err(SendError::InvalidFd)
    );
    assert_eq!(
        l.net.receive(&fd, &mut buf, ReceiveFlags::empty(), None),
        Err(ReceiveError::InvalidFd)
    );
    assert_eq!(l.net.get_local_addr(&fd), Err(LocalAddrError::InvalidFd));
    assert_eq!(l.net.get_remote_addr(&fd), Err(RemoteAddrError::InvalidFd));
    assert_eq!(
        l.net.set_tcp_option(&fd, TcpOptionData::NODELAY(true)),
        Err(SetTcpOptionError::InvalidFd)
    );
    assert_eq!(
        l.net.get_tcp_option(&fd, TcpOptionName::NODELAY),
        Err(GetTcpOptionError::InvalidFd)
    );
    assert!(!l.net.set_socket_proxy(&fd, NetworkProxy::Raw));
    assert!(l.net.take_socket_proxy(&fd).is_none());
}

#[test]
fn sockets_that_do_not_listen_or_connect() {
    let mut l = Looped::new();
    let fd = l.net.socket(Protocol::Tcp).unwrap();
    assert!(matches!(l.net.accept(&fd, None), Err(AcceptError::NotListening)));
    assert_eq!(
        l.net.connect(&fd, &v6(1), false, 0),
        Err(ConnectError::UnsupportedAddress(v6(1)))
    );
    assert_eq!(l.net.get_remote_addr(&fd), Err(RemoteAddrError::NotConnected));
    assert!(matches!(
        l.net.send(&fd, b"x", SendFlags::empty(), None),
        Err(SendError::SocketInInvalidState)
    ));
    let mut buf = [0u8; 1];
    assert!(matches!(
        l.net.receive(&fd, &mut buf, ReceiveFlags::empty(), None),
        Err(ReceiveError::SocketInInvalidState)
    ));
}

#[test]
fn refused_connections_end() {
    let mut l = Looped::new();
    let fd = l.net.socket(Protocol::Tcp).unwrap();
    assert_eq!(l.net.connect(&fd, &at(9), false, l.now), Err(ConnectError::InProgress));
    l.poll();
    assert_eq!(l.net.connect(&fd, &at(9), true, l.now), Err(ConnectError::InvalidState));
}

#[test]
fn pending_data_keeps_a_socket_open() {
    let mut l = Looped::new();
    let listener = l.listener(80);
    let (client, server) = l.connection(&listener, 80);
    l.net.send(&client, b"pending", SendFlags::empty(), None).unwrap();
    assert!(matches!(
        l.net.close(&client, CloseBehavior::GracefulIfNoPendingData),
        Err(CloseError::DataPending)
    ));
    assert!(l.net.is_open(&client));
    l.poll();
    let mut buf = [0u8; 7];
    assert_eq!(l.net.receive(&server, &mut buf, ReceiveFlags::empty(), None), Ok(7));
    assert_eq!(&buf, b"pending");
    // Once the data has been sent, the connection is closed
    assert!(matches!(
        l.net.receive(&server, &mut buf, ReceiveFlags::empty(), None),
        Err(ReceiveError::OperationFinished)
    ));
    assert!(l.net.close(&client, CloseBehavior::GracefulIfNoPendingData).is_ok());
}

#[test]
fn tcp_options() {
    let mut l = Looped::new();
    let fd = l.net.socket(Protocol::Tcp).unwrap();
    let get = |l: &Looped, name| l.net.get_tcp_option(&fd, name).unwrap();
    assert_eq!(get(&l, TcpOptionName::NODELAY), TcpOptionData::NODELAY(false));
    l.net.set_tcp_option(&fd, TcpOptionData::NODELAY(true)).unwrap();
    assert_eq!(get(&l, TcpOptionName::NODELAY), TcpOptionData::NODELAY(true));
    assert_eq!(get(&l, TcpOptionName::KEEPALIVE), TcpOptionData::KEEPALIVE(None));
    l.net.set_tcp_option(&fd, TcpOptionData::KEEPALIVE(Some(7_000_000))).unwrap();
    assert_eq!(get(&l, TcpOptionName::KEEPALIVE), TcpOptionData::KEEPALIVE(Some(7_000_000)));
    l.net.set_tcp_option(&fd, TcpOptionData::CONGESTION(CongestionControl::NoControl)).unwrap();
    assert_eq!(
        get(&l, TcpOptionName::CONGESTION),
        TcpOptionData::CONGESTION(CongestionControl::NoControl)
    );
    let udp = l.net.socket(Protocol::Udp).unwrap();
    assert_eq!(
        l.net.set_tcp_option(&udp, TcpOptionData::NODELAY(true)),
        Err(SetTcpOptionError::NotTcpSocket)
    );
    assert_eq!(
        l.net.get_tcp_option(&udp, TcpOptionName::NODELAY),
        Err(GetTcpOptionError::NotTcpSocket)
    );
}

#[test]
fn when_to_poll_again() {
    let mut l = Looped::new();
    assert_eq!(l.net.platform_interaction(), PlatformInteraction::Automatic);
    l.net.set_platform_interaction(PlatformInteraction::Manual);
    assert_eq!(l.net.platform_interaction(), PlatformInteraction::Manual);
    assert_eq!(l.net.poll_at(0), None);
    assert!(l.net.advice(true, 0).call_again_immediately());
    assert_eq!(
        l.net.advice(false, 0),
        PlatformInteractionReinvocationAdvice::WaitOnDeviceOrSocketInteraction { timeout: None }
    );
    let fd = l.net.socket(Protocol::Tcp).unwrap();
    let _ = l.net.connect(&fd, &at(9), false, 0);
    assert_eq!(l.net.poll_at(5), Some(0));
    assert_eq!(Network::timeout_for(5, Some(9)), Some(4));
    assert_eq!(Network::timeout_for(9, Some(5)), Some(0));
    assert_eq!(Network::timeout_for(9, None), None);
    assert_eq!(Network::now(12), 12);
}

#[test]
fn no_socket_without_a_port() {
    let mut l = Looped::new();
    let udp = l.net.socket(Protocol::Udp).unwrap();
    assert_eq!(
        l.net.connect(&udp, &at(0), false, 0),
        Err(ConnectError::Unaddressable)
    );
}

#[test]
fn an_interface_is_configured_once() {
    let mut device = Loopback::new(Medium::Ip);
    let mut fresh = || {
        Interface::new(Config::new(HardwareAddress::Ip), &mut device, Instant::from_micros(0))
    };
    let mut interface = fresh();
    interface.update_ip_addrs(|addrs| {
        addrs.push(IpCidr::new(IpAddress::v4(127, 0, 0, 1), 8)).unwrap();
    });
    assert!(Network::try_new(interface).is_none());
    let mut interface = fresh();
    interface.routes_mut().add_default_ipv4_route(Ipv4Address::new(10, 0, 0, 9)).unwrap();
    assert!(Network::try_new(interface).is_none());

    let net = Network::new(fresh());
    assert_eq!(
        net.interface.ip_addrs().to_vec(),
        vec![IpCidr::new(IpAddress::v4(10, 0, 0, 2), 24)]
    );
}

#[test]
fn no_connection_without_an_address() {
    let mut l = Looped::new();
    let fd = l.net.socket(Protocol::Tcp).unwrap();
    assert_eq!(l.net.connect(&fd, &at(0), false, 0), Err(ConnectError::Unaddressable));
    let nowhere = SocketAddr::V4(SocketAddrV4 { ip: 0, port: 80 });
    assert_eq!(l.net.connect(&fd, &nowhere, false, 0), Err(ConnectError::Unaddressable));
    // A port of its own does not help
    let bound = l.net.socket(Protocol::Tcp).unwrap();
    l.net.bind(&bound, &at(4000)).unwrap();
    assert!(l.net.is_connectable(&bound, &at(0), false));
    assert_eq!(l.net.connect(&bound, &at(0), false, 0), Err(ConnectError::Unaddressable));
    l.net.interface.update_ip_addrs(|addrs| addrs.clear());
    assert_eq!(l.net.connect(&fd, &at(80), false, 0), Err(ConnectError::Unaddressable));
}

#[test]
fn what_can_be_asked_for() {
    let mut l = Looped::new();
    let fd = l.net.socket(Protocol::Tcp).unwrap();
    let udp = l.net.socket(Protocol::Udp).unwrap();
    assert!(l.net.is_tcp(&fd) && !l.net.is_tcp(&udp));
    assert!(l.net.is_bindable(&fd, &at(80)));
    assert!(l.net.is_connectable(&fd, &at(80), false));
    assert!(!l.net.can_listen(&fd, 0));
    assert!(!l.net.can_listen(&udp, 1));
    assert!(!l.net.can_accept(&udp));
    assert!(l.net.can_accept(&fd));
    l.net.bind(&fd, &at(80)).unwrap();
    // A bound socket can listen, but not connect
    assert!(!l.net.is_connectable(&fd, &at(80), false));
    assert!(l.net.is_connectable(&fd, &v6(80), false));
    assert!(l.net.is_connectable(&udp, &at(80), false));
    assert!(l.net.can_listen(&fd, 2));
    l.net.listen(&fd, 2).unwrap();
    assert!(!l.net.can_listen(&fd, 2));
    // A socket that is connecting cannot connect again
    let client = l.net.socket(Protocol::Tcp).unwrap();
    assert!(l.net.is_connectable(&client, &at(80), true));
    let _ = l.net.connect(&client, &at(80), false, 0);
    assert!(!l.net.is_connectable(&client, &at(80), false));
    assert!(!l.net.is_bindable(&client, &at(81)));
    assert!(l.net.is_bindable(&client, &at(80)));

    // Proxies have to be of the kind of their socket
    assert!(l.net.is_drainable());
    let stream = NetworkProxy::Stream(StreamSocketChannel::new());
    assert!(l.net.set_socket_proxy(&udp, stream));
    assert!(!l.net.is_drainable());
    let mut channel = DatagramSocketChannel::new();
    channel.send_to(b"x", Some(at(5))).unwrap();
    l.net.set_socket_proxy(&udp, NetworkProxy::Datagram(channel));
    assert!(l.net.is_drainable());
    let mut channel = DatagramSocketChannel::new();
    channel.send_to(b"x", Some(at(5))).unwrap();
    channel.send_to(b"y", Some(v6(5))).unwrap();
    assert_eq!(channel.tx_heads(), vec![(Some(at(5)), 1), (Some(v6(5)), 1)]);
    l.net.set_socket_proxy(&udp, NetworkProxy::Datagram(channel));
    // The socket is not bound, so sending stops at the first datagram
    assert!(l.net.is_drainable());
    l.net.prepare_for_poll(l.now);
    l.net.bind(&udp, &at(4001)).unwrap();
    assert!(!l.net.is_drainable());
}

#[test]
fn datagrams_behind_one_that_is_too_large_are_not_reached() {
    let mut l = Looped::new();
    let udp = l.net.socket(Protocol::Udp).unwrap();
    l.net.bind(&udp, &at(4002)).unwrap();
    let queue = |size: usize| {
        let mut channel = DatagramSocketChannel::new();
        channel.send_to(&vec![1; size], Some(at(5))).unwrap();
        channel.send_to(b"y", Some(v6(5))).unwrap();
        NetworkProxy::Datagram(channel)
    };
    assert!(l.net.set_socket_proxy(&udp, queue(litebox::net::SOCKET_BUFFER_SIZE)));
    assert!(!l.net.is_drainable());
    assert!(l.net.set_socket_proxy(&udp, queue(litebox::net::SOCKET_BUFFER_SIZE + 1)));
    assert!(l.net.is_drainable());
    l.net.prepare_for_poll(l.now);
    match l.net.take_socket_proxy(&udp) {
        Some(NetworkProxy::Datagram(channel)) => assert_eq!(channel.tx_heads().len(), 2),
        _ => panic!("no datagrams"),
    }
}

#[test]
fn the_mode_of_interaction_is_kept() {
    let mut l = Looped::new();
    l.net.set_platform_interaction(PlatformInteraction::Manual);
    let listener = l.listener(80);
    let (client, server) = l.connection(&listener, 80);
    l.net.send(&client, b"x", SendFlags::empty(), None).unwrap();
    l.net.close(&server, CloseBehavior::Graceful).unwrap();
    assert_eq!(l.net.platform_interaction(), PlatformInteraction::Manual);
}

#[test]
fn datagrams_that_do_not_fit_are_refused() {
    let mut l = Looped::new();
    let udp = l.net.socket(Protocol::Udp).unwrap();
    let none = SendFlags::empty();
    let large = vec![0u8; 65536 * 4];
    assert_eq!(l.net.send(&udp, &large, none, Some(at(5))), Ok(65536 * 4));
    assert_eq!(l.net.send(&udp, b"x", none, Some(at(5))), Err(SendError::BufferFull));
    let other = l.net.socket(Protocol::Udp).unwrap();
    let larger = vec![0u8; 65536 * 4 + 1];
    assert_eq!(l.net.send(&other, &larger, none, Some(at(5))), Err(SendError::BufferFull));
    assert_eq!(l.net.send(&other, b"", none, Some(at(0))), Err(SendError::Unaddressable));
    let port = l.net.socket(Protocol::Udp).unwrap();
    // No more than 32 datagrams wait to be sent
    for _ in 0..32 {
        assert_eq!(l.net.send(&port, b"x", none, Some(at(5))), Ok(1));
    }
    assert_eq!(l.net.send(&port, b"x", none, Some(at(5))), Err(SendError::BufferFull));
}

#[test]
fn raw_sockets_are_not_supported() {
    let mut l = Looped::new();
    assert!(matches!(
        l.net.socket(Protocol::Raw { protocol: 89 }),
        Err(SocketError::UnsupportedProtocol(89))
    ));
}

#[test]
fn a_datagram_socket_is_bound_once() {
    let mut l = Looped::new();
    let udp = l.net.socket(Protocol::Udp).unwrap();
    assert_eq!(l.net.bind(&udp, &at(0)), Ok(()));
    match l.net.get_local_addr(&udp) {
        Ok(SocketAddr::V4(a)) => assert!(a.ip == OWN && a.port >= 49152),
        other => panic!("unexpected {:?}", other),
    }
    assert_eq!(l.net.bind(&udp, &at(6000)), Err(BindError::AlreadyBound));
    // The port that was not used is free
    let other = l.net.socket(Protocol::Udp).unwrap();
    assert_eq!(l.net.bind(&other, &at(6000)), Ok(()));
    assert_eq!(l.net.get_remote_addr(&other), Err(RemoteAddrError::NotConnected));
}

#[test]
fn a_socket_that_was_not_bound_listens_on_some_port() {
    let mut l = Looped::new();
    let fd = l.net.socket(Protocol::Tcp).unwrap();
    assert_eq!(l.net.listen(&fd, 1), Ok(()));
    assert!(matches!(l.net.accept(&fd, None), Err(AcceptError::NoConnectionsReady)));
}

#[test]
fn connections_time_out() {
    let mut l = Looped::new();
    // Nobody has this address
    let nobody = SocketAddr::V4(SocketAddrV4 { ip: 0x0a00_0009, port: 80 });
    let fd = l.net.socket(Protocol::Tcp).unwrap();
    let mut channel = StreamSocketChannel::new();
    channel.set_state(SocketState::Connecting);
    assert!(l.net.set_socket_proxy(&fd, NetworkProxy::Stream(channel)));
    assert_eq!(l.net.connect(&fd, &nobody, false, l.now), Err(ConnectError::InProgress));
    l.poll();
    assert_eq!(l.net.connect(&fd, &nobody, true, l.now), Err(ConnectError::InProgress));
    l.now += 80_000_000;
    l.poll();
    assert_eq!(l.net.connect(&fd, &nobody, true, l.now), Err(ConnectError::TimedOut));
    let mut proxy = l.net.take_socket_proxy(&fd).unwrap();
    assert_eq!(proxy.get_async_error(true), Some(SocketAsyncError::TimedOut));
}

#[test]
fn channels_learn_of_connections() {
    let mut l = Looped::new();
    let listener = l.listener(80);
    assert!(l.net.set_socket_proxy(&listener, NetworkProxy::Stream(StreamSocketChannel::new())));
    let client = l.net.socket(Protocol::Tcp).unwrap();
    let mut channel = StreamSocketChannel::new();
    channel.set_state(SocketState::Connecting);
    assert!(l.net.set_socket_proxy(&client, NetworkProxy::Stream(channel)));
    let _ = l.net.connect(&client, &at(80), false, l.now);
    l.poll();
    // The client is connected
    match l.net.take_socket_proxy(&client) {
        Some(NetworkProxy::Stream(c)) => {
            assert_eq!(c.state(), SocketState::Connected);
            l.net.set_socket_proxy(&client, NetworkProxy::Stream(c));
        }
        _ => panic!("the proxy of a stream socket is for streams"),
    }
    // The listener can be read from: a connection waits to be accepted
    match l.net.take_socket_proxy(&listener) {
        Some(NetworkProxy::Stream(c)) => assert!(c.is_readable()),
        _ => panic!("the proxy of a stream socket is for streams"),
    }
    let server = l.net.accept(&listener, None).unwrap();
    // A connection that is reset is reported
    l.net.close(&server, CloseBehavior::Immediate).unwrap();
    l.poll();
    match l.net.take_socket_proxy(&client) {
        Some(NetworkProxy::Stream(mut c)) => {
            assert_eq!(c.state(), SocketState::Closed);
            assert_eq!(c.get_async_error(true), Some(SocketAsyncError::ConnectionReset));
        }
        _ => panic!("the proxy of a stream socket is for streams"),
    }
}

#[test]
fn refused_connections_are_reported() {
    let mut l = Looped::new();
    let fd = l.net.socket(Protocol::Tcp).unwrap();
    let mut channel = StreamSocketChannel::new();
    channel.set_state(SocketState::Connecting);
    assert!(l.net.set_socket_proxy(&fd, NetworkProxy::Stream(channel)));
    let _ = l.net.connect(&fd, &at(9), false, l.now);
    l.poll();
    match l.net.take_socket_proxy(&fd) {
        Some(NetworkProxy::Stream(mut c)) => {
            // After the error, the channel has been told once more that the socket is closed
            let seen: Vec<u32> = c.take_notifications().iter().map(|e| e.bits).collect();
            assert_eq!(seen, vec![Events::ERR, Events::HUP]);
            assert_eq!(c.state(), SocketState::Closed);
            assert_eq!(c.get_async_error(true), Some(SocketAsyncError::ConnectionRefused));
        }
        _ => panic!("the proxy of a stream socket is for streams"),
    }
}

#[test]
fn backlogs_are_refilled() {
    let mut l = Looped::new();
    let listener = l.listener(80);
    for _ in 0..5 {
        let (client, server) = l.connection(&listener, 80);
        assert_eq!(l.net.send(&client, b"hi", SendFlags::empty(), None), Ok(2));
        l.poll();
        let mut buf = [0u8; 2];
        assert_eq!(l.net.receive(&server, &mut buf, ReceiveFlags::empty(), None), Ok(2));
    }
}

#[test]
fn shared_sockets_are_closed_later() {
    let mut l = Looped::new();
    let listener = l.listener(80);
    let (client, server) = l.connection(&listener, 80);
    let other = l.net.socket(Protocol::Udp).unwrap();
    // There is another descriptor for the socket
    assert!(l.net.can_close_now(&client, CloseBehavior::Immediate));
    assert!(matches!(l.net.finish_close(&client, CloseOutcome::Duplicated), Ok(None)));
    assert!(l.net.is_open(&client));
    assert_eq!(l.net.send(&client, b"x", SendFlags::empty(), None), Ok(1));
    assert!(l.net.attempt_to_close_queued(&vec![other]).is_empty());
    assert!(l.net.is_open(&client));
    // Now there is none
    assert_eq!(l.net.attempt_to_close_queued(&vec![other, client]).len(), 1);
    assert!(!l.net.is_open(&client));
    assert!(l.net.is_open(&other));
    assert!(l.net.attempt_to_close_queued(&vec![client]).is_empty());
    // The connection was aborted
    l.poll();
    let mut buf = [0u8; 4];
    assert_eq!(
        l.net.receive(&server, &mut buf, ReceiveFlags::empty(), None),
        Err(ReceiveError::SocketInInvalidState)
    );
}

#[test]
fn closing_is_put_off_while_data_is_pending() {
    let mut l = Looped::new();
    let listener = l.listener(80);
    let (client, _) = l.connection(&listener, 80);
    l.net.send(&client, b"x", SendFlags::empty(), None).unwrap();
    assert!(!l.net.can_close_now(&client, CloseBehavior::GracefulIfNoPendingData));
    assert!(matches!(
        l.net.finish_close(&client, CloseOutcome::Deferred),
        Err(CloseError::DataPending)
    ));
    l.net.close(&client, CloseBehavior::Graceful).unwrap();
    assert!(!l.net.can_close_now(&client, CloseBehavior::Immediate));
    assert!(matches!(
        l.net.finish_close(&client, CloseOutcome::Closed),
        Err(CloseError::InvalidFd)
    ));
}
