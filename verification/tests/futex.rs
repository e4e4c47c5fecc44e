use litebox::event::wait::{WaitContext, WaitError, WaitEvent, WaitPhase, WaitState};
use litebox::sync::futex::{FutexError, FutexManager};

#[test]
fn test_futex_wait_wake_single_thread() {
    let mut futex_manager = FutexManager::new();
    let futex_addr = 0x1000;

    // Wait for value 0
    let waiter = futex_manager.wait(futex_addr, None, 1).unwrap();
    assert!(futex_manager.check_value(waiter, Some(0), 0).is_ok());
    assert!(!futex_manager.is_done(waiter));

    // Change the value and wake
    let woken = futex_manager.wake(futex_addr, 1, None).unwrap();

    assert!(futex_manager.is_done(waiter));
    let result = futex_manager.finish_wait(waiter, None);
    assert!(result.is_ok());
    assert_eq!(woken.len(), 1);
    assert_eq!(woken, vec![1]);
}

#[test]
fn test_futex_wait_wake_single_thread_with_timeout() {
    let mut futex_manager = FutexManager::new();
    let futex_addr = 0x1000;
    let mut thread = WaitState::new();

    // Wait for value 0 with some timeout
    let context = WaitContext::new().with_timeout(0, Some(300_000_000));
    let waiter = futex_manager.wait(futex_addr, None, 1).unwrap();
    assert!(futex_manager.check_value(waiter, Some(0), 0).is_ok());
    let mut wait = context.wait_until(&mut thread);
    wait.next(WaitEvent::Condition(futex_manager.is_done(waiter)), &mut thread);
    wait.next(WaitEvent::Clock(0), &mut thread);
    wait.next(WaitEvent::Interrupt(false), &mut thread);
    assert_eq!(wait.action(), WaitPhase::Block { timeout: Some(300_000_000) });

    // Change the value and wake
    let woken = futex_manager.wake(futex_addr, 1, None).unwrap();
    thread.wake();
    wait.next(WaitEvent::Unblocked, &mut thread);
    wait.next(WaitEvent::Condition(futex_manager.is_done(waiter)), &mut thread);
    assert_eq!(wait.action(), WaitPhase::Ready);

    let result = futex_manager.finish_wait(waiter, None);
    assert!(result.is_ok(), "{result:?}");
    assert_eq!(woken.len(), 1);
}

#[test]
fn test_futex_multiple_waiters_with_timeout() {
    let mut futex_manager = FutexManager::new();
    let futex_addr = 0x1000;
    let mut waiters = Vec::new();
    for number in 0..3 {
        // Wait for value 0 with some timeout
        let mut thread = WaitState::new();
        let context = WaitContext::new().with_timeout(0, Some(300_000_000));
        let waiter = futex_manager.wait(futex_addr, None, number).unwrap();
        assert!(futex_manager.check_value(waiter, Some(0), 0).is_ok());
        let mut wait = context.wait_until(&mut thread);
        wait.next(WaitEvent::Condition(futex_manager.is_done(waiter)), &mut thread);
        wait.next(WaitEvent::Clock(0), &mut thread);
        wait.next(WaitEvent::Interrupt(false), &mut thread);
        assert_eq!(wait.action(), WaitPhase::Block { timeout: Some(300_000_000) });
        waiters.push((waiter, wait, thread));
    }

    // Change the value and wake all
    let woken = futex_manager.wake(futex_addr, u32::MAX, None).unwrap();
    assert_eq!(woken, vec![0, 1, 2]);
    for (waiter, mut wait, mut thread) in waiters {
        thread.wake();
        wait.next(WaitEvent::Unblocked, &mut thread);
        wait.next(WaitEvent::Condition(futex_manager.is_done(waiter)), &mut thread);
        assert_eq!(wait.action(), WaitPhase::Ready);
        assert!(futex_manager.finish_wait(waiter, None).is_ok());
    }
    // Nobody is left
    assert!(futex_manager.wake(futex_addr, u32::MAX, None).unwrap().is_empty());
}

#[test]
fn futex_errors() {
    let mut m = FutexManager::new();
    assert!(matches!(m.wait(2, None, 0), Err(FutexError::NotAligned)));
    assert!(matches!(m.wake(3, 1, None), Err(FutexError::NotAligned)));

    let waiter = m.wait(8, None, 0).unwrap();
    assert!(matches!(
        m.check_value(waiter, Some(5), 4),
        Err(FutexError::ImmediatelyWokenBecauseValueMismatch)
    ));
    let waiter = m.wait(8, None, 0).unwrap();
    assert!(matches!(m.check_value(waiter, None, 4), Err(FutexError::Fault)));
    let waiter = m.wait(8, None, 0).unwrap();
    assert!(m.check_value(waiter, Some(4), 4).is_ok());
    assert!(matches!(
        m.finish_wait(waiter, Some(WaitError::TimedOut)),
        Err(FutexError::WaitError(WaitError::TimedOut))
    ));
    // None of them is waiting any more.
    assert!(m.wake(8, 10, None).unwrap().is_empty());
}

#[test]
fn futex_wakes_are_limited_to_address_bits_and_count() {
    let mut m = FutexManager::new();
    let far = 8 + 4 * 256; // on the same list
    for (thread, (addr, bits)) in
        [(8, Some(1)), (far, None), (8, Some(2)), (8, None), (8, Some(1))].iter().enumerate()
    {
        m.wait(*addr, *bits, thread).unwrap();
    }
    assert_eq!(m.wake(8, 2, Some(1)).unwrap(), vec![0, 3]);
    assert_eq!(m.wake(8, 1, None).unwrap(), vec![2]);
    assert_eq!(m.wake(8, 5, Some(4)).unwrap(), Vec::<usize>::new());
    assert_eq!(m.wake(far, 5, Some(4)).unwrap(), vec![1]);
    assert_eq!(m.wake(8, 5, None).unwrap(), vec![4]);
}

#[test]
fn futex_waiters_come_and_go() {
    let mut m = FutexManager::new();
    let first = m.wait(8, None, 1).unwrap();
    let second = m.wait(8, None, 2).unwrap();
    assert!(m.finish_wait(first, Some(WaitError::Interrupted)).is_err());
    let third = m.wait(8, None, 3).unwrap();
    // Those that have waited longest are woken first
    assert_eq!(m.wake(8, 1, None).unwrap(), vec![2]);
    assert!(m.is_done(second) && !m.is_done(third));
    assert_eq!(m.wake(8, 1, None).unwrap(), vec![3]);
    assert!(m.finish_wait(second, None).is_ok());
    assert!(m.finish_wait(third, None).is_ok());
}
