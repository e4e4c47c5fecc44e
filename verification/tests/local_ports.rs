use litebox::net::local_ports::{LocalPortAllocationError, LocalPortAllocator};

#[test]
fn a_specific_port_is_given_out_once() {
    let mut ports = LocalPortAllocator::new();
    let port = ports.specific_port(80).unwrap();
    assert_eq!(port.port(), 80);
    assert!(matches!(
        ports.specific_port(80),
        Err(LocalPortAllocationError::AlreadyInUse(80))
    ));
    ports.deallocate(port);
    assert_eq!(ports.specific_port(80).unwrap().port(), 80);
}

#[test]
fn a_shared_port_is_released_with_its_last_use() {
    let mut ports = LocalPortAllocator::new();
    let port = ports.allocate_local_port(4000).unwrap();
    let same = ports.allocate_same_local_port(&port);
    assert_eq!(same.port(), 4000);
    ports.deallocate(same);
    assert!(ports.specific_port(4000).is_err());
    ports.deallocate(port);
    assert!(ports.specific_port(4000).is_ok());
}

#[test]
fn ephemeral_ports_are_distinct_until_none_is_left() {
    let mut ports = LocalPortAllocator::new();
    let mut seen = vec![false; 65536];
    let mut count = 0;
    loop {
        match ports.ephemeral_port() {
            Ok(port) => {
                let n = port.port() as usize;
                assert!((49152..=65535).contains(&n));
                assert!(!seen[n]);
                seen[n] = true;
                count += 1;
            }
            Err(e) => {
                assert!(matches!(e, LocalPortAllocationError::NoAvailableFreePorts));
                break;
            }
        }
    }
    assert_eq!(count, 16384);
    // Another port is still to be had.
    assert!(ports.allocate_local_port(0).is_err());
    assert!(ports.specific_port(1).is_ok());
    ports.deallocate_port(1);
    assert!(ports.specific_port(1).is_ok());
    ports.deallocate_port(0);
}

#[test]
fn ports_that_can_be_had() {
    let mut ports = LocalPortAllocator::new();
    assert!(ports.can_allocate(0) && ports.can_allocate(80));
    assert_eq!(ports.use_count(80), 0);
    let port = ports.specific_port(80).unwrap();
    assert!(ports.can_allocate(0) && !ports.can_allocate(80));
    assert_eq!(ports.use_count(80), 1);
    let _same = ports.allocate_same_local_port(&port);
    assert_eq!(ports.use_count(80), 2);
    for p in 49152..=65535u16 {
        let _ = ports.specific_port(p).unwrap();
    }
    assert!(!ports.can_allocate(0) && ports.can_allocate(81));
}
