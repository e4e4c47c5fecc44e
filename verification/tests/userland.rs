use litebox::linux::errno::Errno;
use litebox::linux::mm::ProtFlags;
use litebox::mm::MemoryRegionPermissions;
use litebox::userland::maps::parse_maps;
use litebox::userland::raw_mutex::{
    claim_wakeup, finish_waking, BlockEvent, BlockLoop, BlockOutcome, BlockPhase, WakeEvent,
    WakeLoop, WakePhase,
};
use litebox::userland::{
    allocate_flags, allocation_size, blockable, check_sigaction, interface_name, prot_flags,
    spawn_result, timespec_of_nanos,
};

/// The two words of a mutex, and how many threads wait on the second one.
struct Words {
    word: u32,
    num_to_wake_up: u32,
}

#[test]
fn test_raw_mutex() {
    let mut mutex = Words { word: 0, num_to_wake_up: 0 };

    // One thread blocks
    let mut block = BlockLoop::new(0, None);
    block.next(BlockEvent::Word(mutex.word));
    assert_eq!(block.action(), BlockPhase::Wait { timeout: None });
    assert_eq!(mutex.num_to_wake_up, 0);

    // Another one wakes up to ten
    let mut wake = WakeLoop::new(10);
    assert_eq!(wake.action(), WakePhase::Requeue);
    wake.next(WakeEvent::Requeued);
    match wake.action() {
        WakePhase::Lock { word } => {
            assert_eq!(word, 10 | 0xc000_0000);
            mutex.num_to_wake_up = word;
        }
        other => panic!("unexpected {:?}", other),
    }
    wake.next(WakeEvent::Exchanged(true));
    assert_eq!(wake.action(), WakePhase::Wake { n: 10 });

    // The first one goes on
    block.next(BlockEvent::Returned);
    assert_eq!(block.action(), BlockPhase::Claim);
    mutex.num_to_wake_up = claim_wakeup(mutex.num_to_wake_up).unwrap();
    assert_eq!(mutex.num_to_wake_up, 9 | 0xc000_0000);
    block.next(BlockEvent::Claimed(true));
    assert_eq!(block.action(), BlockPhase::Finished { outcome: BlockOutcome::Unblocked });

    // The waker has woken one
    wake.next(WakeEvent::WokenOrRequeued(1));
    assert_eq!(wake.action(), WakePhase::Unlock { remain: 9, woken: 1 });
    mutex.num_to_wake_up = finish_waking(mutex.num_to_wake_up, 9).unwrap();
    wake.next(WakeEvent::Exchanged(true));
    assert_eq!(wake.action(), WakePhase::Finished { woken: 1 });
    assert_eq!(mutex.num_to_wake_up, 0);
}

#[test]
fn blocking_ends_at_once_where_the_word_differs() {
    let mut block = BlockLoop::new(0, None);
    block.next(BlockEvent::Word(1));
    assert_eq!(
        block.action(),
        BlockPhase::Finished { outcome: BlockOutcome::ImmediatelyWokenUp }
    );
}

#[test]
fn blocking_for_a_time() {
    let mut block = BlockLoop::new(0, Some(100));
    block.next(BlockEvent::Word(0));
    assert_eq!(block.action(), BlockPhase::ReadClock);
    block.next(BlockEvent::Elapsed(30));
    assert_eq!(block.action(), BlockPhase::Wait { timeout: Some(70) });
    // Woken for no reason
    block.next(BlockEvent::Returned);
    block.next(BlockEvent::Claimed(false));
    assert_eq!(block.action(), BlockPhase::ReadClock);
    block.next(BlockEvent::Elapsed(101));
    assert_eq!(block.action(), BlockPhase::Finished { outcome: BlockOutcome::TimedOut });
}

#[test]
fn claims_are_limited() {
    assert_eq!(claim_wakeup(0), None);
    assert_eq!(claim_wakeup(5), None);
    assert_eq!(claim_wakeup(0xc000_0001), Some(0xc000_0000));
    assert_eq!(claim_wakeup(0xc000_0000), None);
    assert_eq!(finish_waking(0xc000_0002, 1), None);
    assert_eq!(finish_waking(0xc000_0001, 1), Some(0));
    let mut wake = WakeLoop::new(u32::MAX as usize);
    assert_eq!(wake.action(), WakePhase::Requeue);
    wake.next(WakeEvent::Requeued);
    assert_eq!(wake.action(), WakePhase::Lock { word: u32::MAX });
}

const MAPS: &str = "\
00400000-00452000 r-xp 00000000 08:02 173521      /usr/bin/dbus-daemon
00651000-00652000 r--p 00051000 08:02 173521      /usr/bin/dbus-daemon
00e03000-00e24000 rw-p 00000000 00:00 0           [heap]
7fffb2c0d000-7fffb2c2e000 rw-p 00000000 00:00 0   [stack]
7fffb2d48000-7fffb2d49000 r-xp 00000000 00:00 0   [vdso]
ffffffffff600000-ffffffffff601000 r-xp 00000000 00:00 0 [vsyscall]
";

#[test]
fn test_reserved_pages() {
    let (reserved_pages, _) = parse_maps(MAPS).unwrap();

    // Check that the reserved pages are in order and non-overlapping
    let mut prev = 0;
    for page in &reserved_pages {
        assert!(page.0 >= prev);
        assert!(page.1 > page.0);
        prev = page.1;
    }
    assert_eq!(reserved_pages.len(), 6);
}

#[test]
fn memory_maps_are_read() {
    let (mappings, vdso) = parse_maps(MAPS).unwrap();
    assert_eq!(mappings[0], (0x400000, 0x452000));
    assert_eq!(mappings[5], (0xffffffffff600000, 0xffffffffff601000));
    assert_eq!(vdso, Some(0x7fffb2d48000));

    // Lines that are too short are passed over
    assert_eq!(parse_maps("a b c\n\n").unwrap(), (vec![], None));
    assert_eq!(parse_maps("").unwrap(), (vec![], None));
    // Ill-formed ones are not
    assert!(parse_maps("zz-10 r--p 0 0:0 0").is_none());
    assert!(parse_maps("10 r--p 0 0:0 0").is_none());
}

#[test]
fn interface_names() {
    let mut expected = vec![0i8; 16];
    expected[..4].copy_from_slice(&[116, 117, 110, 48]);
    assert_eq!(interface_name("tun0").unwrap(), expected);
    assert!(interface_name("0123456789abcde").is_some());
    assert!(interface_name("0123456789abcdef").is_none());
    assert!(interface_name("t\u{e4}n").is_none());
}

#[test]
fn spans_of_time() {
    let t = timespec_of_nanos(2_500_000_001);
    assert_eq!((t.tv_sec, t.tv_nsec), (2, 500_000_001));
}

#[test]
fn protections_and_flags() {
    let p = |bits| prot_flags(MemoryRegionPermissions { bits }).bits;
    assert_eq!(p(0), ProtFlags::PROT_NONE);
    assert_eq!(p(3), ProtFlags::PROT_READ_WRITE);
    assert_eq!(p(5), ProtFlags::PROT_READ_EXEC);
    assert_eq!(p(7), ProtFlags::PROT_READ_WRITE_EXEC);
    assert_eq!(allocate_flags(false, false), 0x32);
    assert_eq!(allocate_flags(true, true), 0x8132);
}

#[test]
fn allocations_have_room_to_be_aligned() {
    assert_eq!(allocation_size(1, 1), 0x2000);
    assert_eq!(allocation_size(0x2001, 8), 0x4000);
    assert_eq!(allocation_size(0x2000, 8), 0x2000);
    assert_eq!(allocation_size(0x2000, 0x10000), 0x20000);
}

#[test]
fn results_of_creating_threads() {
    assert_eq!(spawn_result(42), Some(Ok(42)));
    let again = (-(Errno::EAGAIN as isize)) as usize;
    assert_eq!(spawn_result(again), Some(Err(Errno::new(Errno::EAGAIN))));
    let io = (-(Errno::EIO as isize)) as usize;
    assert_eq!(spawn_result(io), None);
}

#[test]
fn signals_for_interception_are_kept() {
    assert_eq!(blockable(u64::MAX), !0x4000_0000);
    assert_eq!(blockable(1), 1);
    assert_eq!(check_sigaction(31, true), Err(Errno::new(Errno::EINVAL)));
    assert_eq!(check_sigaction(31, false), Ok(()));
    assert_eq!(check_sigaction(10, true), Ok(()));
}
