use litebox::loom_model::{
    ImmediatelyWokenUp, LoomFutex, LoomInstant, LoomPlatform, LoomSystemTime, UnblockedOrTimedOut,
};

#[test]
fn block_returns_immediately_when_word_mismatches() {
    let mut futex = LoomFutex::new(1);

    match futex.block(0, 7) {
        Err(ImmediatelyWokenUp) => {}
        Ok(()) => panic!("futex wait should not block when the word already differs"),
    }
    assert_eq!(futex.num_waiters(), 0);
}

#[test]
fn block_or_timeout_returns_immediately_when_word_mismatches() {
    let mut futex = LoomFutex::new(1);

    match futex.block_or_timeout(0, 7) {
        Err(ImmediatelyWokenUp) => {}
        Ok(UnblockedOrTimedOut::Unblocked) => {
            panic!("futex wait should not consume a wake when the word already differs")
        }
        Ok(UnblockedOrTimedOut::TimedOut) => {
            panic!("LoomFutex does not model timeout expiration")
        }
    }
}

#[test]
fn wake_many_returns_zero_without_waiters() {
    let mut futex = LoomFutex::new(0);

    assert_eq!(futex.wake_many(1), 0);
    assert_eq!(futex.wake_all(), 0);
}

#[test]
fn wake_one_does_not_select_the_same_waiter_twice() {
    let mut futex = LoomFutex::new(0);
    assert!(futex.block(0, 7).is_ok());

    assert!(futex.wake_one());
    assert!(!futex.wake_one());
    assert!(futex.is_woken(7));
    assert_eq!(futex.num_waiters(), 0);
}

#[test]
fn wake_all_selects_all_eligible_waiters() {
    let mut futex = LoomFutex::new(0);
    for thread in 0..3 {
        assert!(futex.block(0, thread).is_ok());
    }

    assert_eq!(futex.wake_all(), 3);
    assert!((0..3).all(|thread| futex.is_woken(thread)));
    assert_eq!(futex.num_waiters(), 0);
}

#[test]
fn wait_does_not_miss_wake_between_check_and_park() {
    // The word changes and one waiter is woken before the first wait, between the two, or after
    // the thread has begun to wait.
    for at in 0..3 {
        let mut futex = LoomFutex::new(0);
        for wait in 0..2 {
            if wait == at {
                futex.store(1);
                futex.wake_one();
            }
            if futex.block(0, wait).is_ok() {
                if at > wait {
                    futex.store(1);
                    futex.wake_one();
                }
                assert!(futex.is_woken(wait));
            }
        }
        assert_eq!(futex.num_waiters(), 0);
    }
}

#[test]
fn waiters_are_woken_in_order() {
    let mut futex = LoomFutex::new(0);
    for thread in [5, 3, 9] {
        assert!(futex.block(0, thread).is_ok());
    }
    assert_eq!(futex.wake_many(2), 2);
    assert!(futex.is_woken(5) && futex.is_woken(3) && !futex.is_woken(9));
    assert_eq!(futex.num_waiters(), 1);
}

#[test]
fn instants() {
    let a = LoomInstant::from_millis(5);
    let b = LoomInstant::from_millis(8);
    assert_eq!(b.checked_duration_since(&a), Some(3));
    assert_eq!(a.checked_duration_since(&b), None);
    assert_eq!(a.checked_add(3).unwrap(), b);
    assert!(a.checked_add(u128::MAX).is_none());
}

#[test]
fn platform_time_goes_on() {
    let mut platform = LoomPlatform::new();
    let a = platform.now();
    let b = platform.now();
    assert!(b.checked_duration_since(&a).is_some());
    let epoch = LoomSystemTime::unix_epoch();
    assert!(platform.current_time().duration_since(&epoch).is_ok());
}
