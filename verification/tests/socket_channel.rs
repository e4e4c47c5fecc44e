use litebox::event::Events;
use litebox::net::errors::{ReceiveError, SendError, SocketAsyncError};
use litebox::net::socket_channel::{
    DatagramSocketChannel, NetworkProxy, SocketState, StreamSocketChannel,
};
use litebox::net::{ReceiveFlags, SendFlags, SocketAddr, SocketAddrV4};

// ==================== StreamSocketChannel Tests ====================

#[test]
fn stream_channel_initial_state() {
    let mut channel: StreamSocketChannel = StreamSocketChannel::new();

    // Initial state should be Closed
    assert_eq!(channel.state(), SocketState::Closed);

    // Should not be readable initially
    assert!(!channel.is_readable());

    // Should be writable (buffer is empty)
    assert!(channel.is_writable());

    // No pending TX data
    assert!(!channel.has_pending_tx());
}

#[test]
fn stream_channel_push_rx_and_read() {
    let mut channel: StreamSocketChannel = StreamSocketChannel::new();
    channel.set_state(SocketState::Connected);

    // Push data from "network" side
    let data = b"Hello, World!";
    let pushed = channel.push_rx_data_with(|space| data[..space.min(data.len())].to_vec());
    assert_eq!(pushed, data.len());

    // Should now be readable
    assert!(channel.is_readable());

    // Read from "user" side
    let mut buf = [0u8; 32];
    let read = channel
        .try_read(&mut buf, ReceiveFlags::empty(), None)
        .unwrap();
    assert_eq!(read, data.len());
    assert_eq!(&buf[..read], data);

    // Should no longer be readable
    assert!(!channel.is_readable());
}

#[test]
fn stream_channel_write_and_pop_tx() {
    let mut channel: StreamSocketChannel = StreamSocketChannel::new();
    channel.set_state(SocketState::Connected);

    // Write from "user" side
    let data = b"Hello, Network!";
    let written = channel.try_write(data).unwrap();
    assert_eq!(written, data.len());

    // Should have pending TX
    assert!(channel.has_pending_tx());

    // Pop from "network" side
    let mut buf = [0u8; 32];
    let popped = channel.pop_tx_data(&mut buf);
    assert_eq!(popped, data.len());
    assert_eq!(&buf[..popped], data);

    // No more pending TX
    assert!(!channel.has_pending_tx());
}

#[test]
fn stream_channel_not_connected() {
    let mut channel: StreamSocketChannel = StreamSocketChannel::new();

    // Try to read while not connected
    let mut buf = [0u8; 32];
    let result = channel.try_read(&mut buf, ReceiveFlags::empty(), None);
    assert!(matches!(result, Err(ReceiveError::SocketInInvalidState)));

    // Try to write while not connected
    let data = b"test";
    let result = channel.try_write(data);
    assert!(matches!(result, Err(SendError::SocketInInvalidState)));
}

#[test]
fn stream_channel_shutdown_read() {
    let mut channel: StreamSocketChannel = StreamSocketChannel::new();
    channel.set_state(SocketState::Connected);

    // Push some data
    let data = b"data";
    channel.push_rx_data_with(|space| data[..space.min(data.len())].to_vec());

    // Shutdown read side
    channel.shutdown_read();

    // Should fail to read
    let mut buf = [0u8; 32];
    let result = channel.try_read(&mut buf, ReceiveFlags::empty(), None);
    assert!(matches!(result, Err(ReceiveError::SocketInInvalidState)));
}

#[test]
fn stream_channel_shutdown_write() {
    let mut channel: StreamSocketChannel = StreamSocketChannel::new();
    channel.set_state(SocketState::Connected);

    // Shutdown write side
    channel.shutdown_write();

    // Should fail to write
    let result = channel.try_write(b"data");
    assert!(matches!(result, Err(SendError::SocketInInvalidState)));
}

#[test]
fn stream_channel_rx_space() {
    let capacity = 1024;
    let mut channel: StreamSocketChannel =
        StreamSocketChannel::new_with_capacity(capacity, capacity);
    channel.set_state(SocketState::Connected);

    // Initially all space is available
    assert_eq!(channel.rx_space(), capacity);

    // Push some data
    let pushed = channel.push_rx_data_with(|space| vec![0u8; space.min(100)]);
    assert_eq!(pushed, 100);

    // Space should decrease
    assert_eq!(channel.rx_space(), capacity - 100);
}

#[test]
fn stream_channel_partial_read() {
    let mut channel: StreamSocketChannel = StreamSocketChannel::new();
    channel.set_state(SocketState::Connected);

    // Push 100 bytes
    let pushed = channel.push_rx_data_with(|space| vec![42u8; space.min(100)]);
    assert_eq!(pushed, 100);

    // Read only 50 bytes
    let mut buf = [0u8; 50];
    let read = channel
        .try_read(&mut buf, ReceiveFlags::empty(), None)
        .unwrap();
    assert_eq!(read, 50);
    assert!(buf.iter().all(|&b| b == 42));

    // Should still be readable (50 bytes remaining)
    assert!(channel.is_readable());

    // Read remaining
    let read = channel
        .try_read(&mut buf, ReceiveFlags::empty(), None)
        .unwrap();
    assert_eq!(read, 50);
}

#[test]
fn stream_channel_io_events() {
    let mut channel: StreamSocketChannel = StreamSocketChannel::new();

    // Closed state should have HUP
    let events = channel.check_io_events();
    assert!(events.contains(Events::HUP));

    // Connected with empty RX and available TX
    channel.set_state(SocketState::Connected);
    let events = channel.check_io_events();
    assert!(!events.contains(Events::IN)); // No data to read
    assert!(events.contains(Events::OUT)); // Can write

    // Push data to RX
    let data = b"data";
    channel.push_rx_data_with(|space| data[..space.min(data.len())].to_vec());
    let events = channel.check_io_events();
    assert!(events.contains(Events::IN)); // Data available
    assert!(events.contains(Events::OUT)); // Can still write
}

// ==================== DatagramSocketChannel Tests ======================================

const DUMMY_ADDR: SocketAddr = SocketAddr::V4(
    SocketAddrV4 { ip: u32::from_be_bytes([127, 0, 0, 1]), port: 1234 },
);

#[test]
fn datagram_channel_initial_state() {
    let mut channel: DatagramSocketChannel = DatagramSocketChannel::new();

    // Should not be readable initially
    assert!(!channel.is_readable());

    // Should be writable (queue is empty)
    assert!(channel.is_writable());

    // No pending TX
    assert!(!channel.has_pending_tx());

    // RX not full
    assert!(!channel.is_rx_full());
}

#[test]
fn datagram_channel_send_and_receive() {
    let mut channel: DatagramSocketChannel = DatagramSocketChannel::new();

    // Send a datagram (user side)
    let addr = Some(SocketAddr::V4(SocketAddrV4 { ip: u32::from_be_bytes([10, 0, 0, 1]), port: 8080 }));
    let result = channel.send_to(b"Hello, UDP!", addr);
    assert!(result.is_ok());
    assert_eq!(result.unwrap(), 11);

    // Should have pending TX
    assert!(channel.has_pending_tx());

    // Pop from network side using try_send_datagram_with
    let mut received_data = None;
    let mut received_addr = None;
    let result = channel.try_send_datagram_with(|data, dest| {
        received_data = Some(data.to_vec());
        received_addr = Some(dest);
        true // consume the datagram
    });
    assert_eq!(result, Some(true));
    assert_eq!(received_data.unwrap(), b"Hello, UDP!");
    assert_eq!(received_addr.unwrap(), addr);

    // No more pending TX
    assert!(!channel.has_pending_tx());
}

#[test]
fn datagram_channel_push_and_read() {
    let mut channel: DatagramSocketChannel = DatagramSocketChannel::new();

    // Push a datagram (network side) using try_recv_datagram_with
    let addr = SocketAddr::V4(SocketAddrV4 { ip: u32::from_be_bytes([192, 168, 1, 1]), port: 1234 });
    let result =
        channel.try_recv_datagram_with(|| Some((b"Incoming packet".to_vec(), addr)));
    assert_eq!(result, Some(15));

    // Should be readable
    assert!(channel.is_readable());

    // Read from user side
    let mut buf = [0u8; 64];
    let mut source = None;
    let read = channel
        .try_read(
            &mut buf,
            ReceiveFlags::empty(),
            Some(&mut source),
        )
        .unwrap();
    assert_eq!(read, 15);
    assert_eq!(&buf[..read], b"Incoming packet");
    assert_eq!(source, Some(addr));
}

#[test]
fn datagram_channel_read_empty() {
    let mut channel: DatagramSocketChannel = DatagramSocketChannel::new();

    // Try to read when empty
    let mut buf = [0u8; 64];
    let result = channel.try_read(&mut buf, ReceiveFlags::empty(), None);
    assert!(matches!(result, Ok(0)));
}

#[test]
fn datagram_channel_queue_full() {
    let queue_size = 4;
    let mut channel: DatagramSocketChannel =
        DatagramSocketChannel::new_with_capacity(queue_size);

    // Fill the TX queue
    for i in 0..queue_size {
        let result = channel.send_to(&vec![0; i], Some(DUMMY_ADDR));
        assert!(result.is_ok());
    }

    // Next send should fail
    let result = channel.send_to(&[99], Some(DUMMY_ADDR));
    assert!(matches!(result, Err(SendError::BufferFull)));
}

#[test]
fn datagram_channel_unconnected_send_without_address() {
    let mut channel: DatagramSocketChannel = DatagramSocketChannel::new();

    // Sending without an address on an unconnected socket should fail
    let result = channel.send_to(&[1, 2, 3], None);
    assert!(matches!(result, Err(SendError::DestinationAddressRequired)));
}

#[test]
fn datagram_channel_rx_full() {
    let queue_size = 4;
    let mut channel: DatagramSocketChannel =
        DatagramSocketChannel::new_with_capacity(queue_size);

    // Fill the RX queue
    for i in 0..queue_size {
        let data: Vec<u8> = vec![0; i];
        let result = channel.try_recv_datagram_with(|| Some((data, DUMMY_ADDR)));
        assert!(result.is_some());
    }

    // Queue should be full
    assert!(channel.is_rx_full());

    // Next push should fail (returns None when full)
    let result = channel.try_recv_datagram_with(|| Some((vec![99u8], DUMMY_ADDR)));
    assert!(result.is_none());
}

#[test]
fn datagram_channel_truncation() {
    let mut channel: DatagramSocketChannel = DatagramSocketChannel::new();

    // Push a large datagram
    let data: Vec<u8> = vec![42u8; 100];
    channel
        .try_recv_datagram_with(|| Some((data.clone(), DUMMY_ADDR)))
        .unwrap();

    // Read with a small buffer (no TRUNC flag)
    let mut buf = [0u8; 10];
    let read = channel
        .try_read(&mut buf, ReceiveFlags::empty(), None)
        .unwrap();
    assert_eq!(read, data.len());
}

#[test]
fn datagram_channel_trunc_flag() {
    let mut channel: DatagramSocketChannel = DatagramSocketChannel::new();

    let dummy_addr = SocketAddr::V4(SocketAddrV4 { ip: u32::from_be_bytes([127, 0, 0, 1]), port: 1234 });

    // Push a large datagram
    let data: Vec<u8> = vec![42u8; 100];
    channel
        .try_recv_datagram_with(|| Some((data.clone(), dummy_addr)))
        .unwrap();

    // Read with TRUNC flag - should return actual packet size
    let mut buf = [0u8; 10];
    let read = channel
        .try_read(&mut buf, ReceiveFlags { bits: ReceiveFlags::TRUNC }, None)
        .unwrap();
    assert_eq!(read, 100); // Returns actual datagram size
}

#[test]
fn datagram_channel_io_events() {
    let mut channel: DatagramSocketChannel = DatagramSocketChannel::new();

    let dummy_addr = SocketAddr::V4(SocketAddrV4 { ip: u32::from_be_bytes([127, 0, 0, 1]), port: 1234 });

    // Initially: no IN, has OUT
    let events = channel.check_io_events();
    assert!(!events.contains(Events::IN));
    assert!(events.contains(Events::OUT));

    // Push a datagram using try_recv_datagram_with
    channel
        .try_recv_datagram_with(|| Some((b"test".to_vec(), dummy_addr)))
        .unwrap();

    // Now has IN
    let events = channel.check_io_events();
    assert!(events.contains(Events::IN));
    assert!(events.contains(Events::OUT));
}

#[test]
fn datagram_channel_try_send_failure() {
    let mut channel: DatagramSocketChannel = DatagramSocketChannel::new();

    // Send a datagram (user side)
    let addr = Some(SocketAddr::V4(SocketAddrV4 { ip: u32::from_be_bytes([10, 0, 0, 1]), port: 8080 }));
    channel.send_to(b"Hello!", addr).unwrap();

    // Try to send but fail (return false)
    let result = channel.try_send_datagram_with(|_data, _dest| {
        false // simulate send failure
    });
    assert_eq!(result, Some(false));

    // Datagram should still be in queue
    assert!(channel.has_pending_tx());

    // Try again and succeed
    let result = channel.try_send_datagram_with(|data, dest| {
        assert_eq!(data, b"Hello!");
        assert_eq!(dest, addr);
        true
    });
    assert_eq!(result, Some(true));

    // No more pending TX
    assert!(!channel.has_pending_tx());
}

#[test]
fn datagram_channel_try_recv_none() {
    let mut channel: DatagramSocketChannel = DatagramSocketChannel::new();

    // Closure returns None - nothing should be pushed
    let result = channel.try_recv_datagram_with(|| None);
    assert!(result.is_none());

    // Should still not be readable
    assert!(!channel.is_readable());
}

// ==================== Further properties ====================

#[test]
fn socket_states_are_found_by_their_numbers() {
    let all = [
        SocketState::Closed,
        SocketState::Connecting,
        SocketState::Connected,
        SocketState::Listening,
        SocketState::Error,
    ];
    for (i, s) in all.iter().enumerate() {
        assert_eq!(s.number() as usize, i);
        assert_eq!(SocketState::from(s.number()), *s);
    }
    assert_eq!(SocketState::from(17), SocketState::Error);
}

#[test]
fn stream_channel_is_first_in_first_out() {
    let mut channel = StreamSocketChannel::new_with_capacity(4, 4);
    channel.set_state(SocketState::Connected);
    assert_eq!(channel.try_write(b"abc").unwrap(), 3);
    let mut one = [0u8; 1];
    assert_eq!(channel.pop_tx_data(&mut one), 1);
    assert_eq!(&one, b"a");
    // Room for two more of the four
    assert_eq!(channel.try_write(b"defg").unwrap(), 2);
    assert!(!channel.is_writable());
    assert!(matches!(channel.try_write(b"h"), Err(SendError::BufferFull)));
    assert_eq!(channel.pending_tx(), b"bcde".to_vec());
    channel.consume_tx(3);
    assert_eq!(channel.pending_tx(), b"e".to_vec());
}

#[test]
fn stream_channel_pop_with_takes_what_was_consumed() {
    let mut channel = StreamSocketChannel::new();
    channel.set_state(SocketState::Connected);
    channel.try_write(b"abcdef").unwrap();
    let mut seen = Vec::new();
    let n = channel.pop_tx_data_with(|data: &[u8]| {
        seen = data.to_vec();
        2
    });
    assert_eq!(n, 2);
    assert_eq!(seen, b"abcdef".to_vec());
    assert_eq!(channel.pending_tx(), b"cdef".to_vec());
}

#[test]
fn stream_channel_reads_what_was_received() {
    let mut channel = StreamSocketChannel::new_with_capacity(8, 8);
    channel.set_state(SocketState::Connected);
    assert_eq!(channel.push_rx_data(b"0123456789"), 8);
    assert_eq!(channel.rx_space(), 0);
    let mut buf = [7u8; 3];
    let mut source = Some(DUMMY_ADDR);
    let read = channel.try_read(&mut buf, ReceiveFlags::empty(), Some(&mut source)).unwrap();
    assert_eq!(read, 3);
    assert_eq!(&buf, b"012");
    assert_eq!(source, None);
    assert_eq!(channel.rx_space(), 3);
}

#[test]
fn stream_channel_discard_and_trunc_take_everything() {
    let mut channel = StreamSocketChannel::new();
    channel.set_state(SocketState::Connected);
    channel.push_rx_data(b"abcde");
    let mut buf = [0u8; 2];
    let flags = ReceiveFlags { bits: ReceiveFlags::DISCARD };
    assert_eq!(channel.try_read(&mut buf, flags, None).unwrap(), 5);
    assert_eq!(buf, [0, 0]);
    assert!(!channel.is_readable());

    channel.push_rx_data(b"abcde");
    let flags = ReceiveFlags { bits: ReceiveFlags::TRUNC };
    assert_eq!(channel.try_read(&mut buf, flags, None).unwrap(), 5);
    assert_eq!(&buf, b"ab");
    assert!(!channel.is_readable());
}

#[test]
fn stream_channel_notifications() {
    let mut channel = StreamSocketChannel::new();
    channel.set_state(SocketState::Connecting);
    assert!(channel.take_notifications().is_empty());
    channel.set_state(SocketState::Connected);
    channel.set_state(SocketState::Connected);
    channel.push_rx_data(b"x");
    channel.set_state(SocketState::Error);
    channel.set_state(SocketState::Closed);
    let got: Vec<u32> = channel.take_notifications().iter().map(|e| e.bits).collect();
    assert_eq!(got, vec![Events::OUT, Events::IN, Events::ERR, Events::HUP]);
    assert!(channel.take_notifications().is_empty());
}

#[test]
fn stream_channel_errors_are_reported_until_cleared() {
    let mut channel = StreamSocketChannel::new();
    assert!(channel.get_async_error(true).is_none());
    channel.set_async_error(SocketAsyncError::ConnectionRefused);
    assert_eq!(channel.get_async_error(false), Some(SocketAsyncError::ConnectionRefused));
    assert_eq!(channel.get_async_error(true), Some(SocketAsyncError::ConnectionRefused));
    assert!(channel.get_async_error(false).is_none());
}

#[test]
fn stream_channel_error_state_is_reported() {
    let mut channel = StreamSocketChannel::new();
    channel.set_state(SocketState::Error);
    assert_eq!(channel.check_io_events().bits, Events::ERR | Events::OUT);
    channel.set_state(SocketState::Listening);
    assert_eq!(channel.check_io_events().bits, 0);
    channel.set_readable(true);
    assert_eq!(channel.check_io_events().bits, Events::IN);
}

#[test]
fn datagram_channel_connected_send_without_address() {
    let mut channel = DatagramSocketChannel::new();
    channel.set_connected(true);
    assert_eq!(channel.send_to(&[1, 2, 3], None).unwrap(), 3);
    let first = channel.first_tx().unwrap();
    assert_eq!(first.data, vec![1, 2, 3]);
    assert_eq!(first.addr, None);
    channel.consume_tx();
    assert!(!channel.has_pending_tx());
}

#[test]
fn datagram_channel_discards_the_whole_datagram() {
    let mut channel = DatagramSocketChannel::new();
    channel.push_rx_datagram(vec![1, 2, 3], DUMMY_ADDR).unwrap();
    channel.push_rx_datagram(vec![4], DUMMY_ADDR).unwrap();
    let mut buf = [9u8; 2];
    let flags = ReceiveFlags { bits: ReceiveFlags::DISCARD };
    assert_eq!(channel.try_read(&mut buf, flags, None).unwrap(), 3);
    assert_eq!(buf, [9, 9]);
    assert_eq!(channel.try_read(&mut buf, ReceiveFlags::empty(), None).unwrap(), 1);
    assert_eq!(buf, [4, 9]);
}

#[test]
fn datagram_channel_port_is_set_once() {
    let mut channel = DatagramSocketChannel::new();
    assert_eq!(channel.local_port(), 0);
    assert_eq!(channel.set_local_port(80), Ok(()));
    assert_eq!(channel.set_local_port(81), Err(80));
    assert_eq!(channel.local_port(), 80);
}

#[test]
fn proxies_hand_on_to_their_channels() {
    let mut stream = NetworkProxy::Stream(StreamSocketChannel::new());
    stream.set_state(SocketState::Connected);
    assert_eq!(stream.check_io_events().bits, Events::OUT);
    assert!(!stream.has_pending_tx());
    assert_eq!(stream.try_write(b"ab", SendFlags::empty(), None).unwrap(), 2);
    assert!(stream.has_pending_tx());
    let mut buf = [0u8; 2];
    assert_eq!(stream.try_read(&mut buf, ReceiveFlags::empty(), None).unwrap(), 0);

    let mut datagram = NetworkProxy::Datagram(DatagramSocketChannel::new());
    assert!(matches!(
        datagram.try_write(b"ab", SendFlags::empty(), None),
        Err(SendError::DestinationAddressRequired)
    ));
    datagram.set_state(SocketState::Connected);
    assert_eq!(datagram.try_write(b"ab", SendFlags::empty(), None).unwrap(), 2);
    datagram.set_async_error(SocketAsyncError::ConnectionReset);
    assert_eq!(datagram.get_async_error(true), Some(SocketAsyncError::ConnectionReset));

    let mut raw = NetworkProxy::Raw;
    assert!(!raw.has_pending_tx());
    assert!(raw.get_async_error(false).is_none());
}
