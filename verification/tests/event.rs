use litebox::event::polling::{Pollee, PollEvent, PollLoop, PollPhase};
use litebox::event::wait::{
    CheckForInterrupt, ThreadAction, ThreadState, WaitContext, WaitError, WaitEvent, WaitPhase,
    WaitState, WakerUpdate,
};
use litebox::event::Events;

const IN: Events = Events { bits: Events::IN };

/// A thread that waits for something to become ready, step by step.
struct Waiter {
    poll: PollLoop,
    thread: WaitState,
    registered: bool,
    done: bool,
}

impl Waiter {
    fn new() -> Waiter {
        Waiter {
            poll: PollLoop::new(false, IN),
            thread: WaitState::new(),
            registered: false,
            done: false,
        }
    }

    /// One step. Returns whether the thread could take one.
    fn step(&mut self, pollee: &mut Pollee, ready: bool) -> bool {
        match self.poll.action() {
            PollPhase::FirstTry | PollPhase::Try => {
                self.poll.next(if ready { PollEvent::Tried } else { PollEvent::TryAgain });
            }
            PollPhase::Register => {
                pollee.register_observer(0, self.poll.filter());
                self.registered = true;
                self.poll.next(PollEvent::Registered(true));
            }
            PollPhase::Wait => {
                let mut wait = WaitContext::new().wait_until(&mut self.thread);
                wait.next(WaitEvent::Condition(self.poll.is_ready()), &mut self.thread);
                if wait.action() != WaitPhase::Ready {
                    // It would block
                    self.thread.end_wait();
                    return false;
                }
                self.poll.next(PollEvent::Notified);
            }
            PollPhase::Finished => {
                self.done = true;
                return false;
            }
            other => panic!("unexpected {:?}", other),
        }
        true
    }
}

#[test]
fn wait_does_not_miss_notification() {
    // The notifier may come at any time after the observer has been registered.
    for after in 0..10 {
        let mut pollee = Pollee::new();
        let mut waiter = Waiter::new();
        let mut ready = false;
        while !waiter.registered {
            assert!(waiter.step(&mut pollee, ready));
        }
        for _ in 0..after {
            waiter.step(&mut pollee, ready);
        }
        ready = true;
        for o in pollee.notify_observers(IN) {
            assert_eq!(o.observer, 0);
            waiter.poll.on_events();
        }
        while waiter.step(&mut pollee, ready) {}
        assert!(waiter.done);
    }
}

#[test]
fn nonblock_does_not_register_observer() {
    let pollee = Pollee::new();
    let mut poll = PollLoop::new(true, IN);
    assert_eq!(poll.action(), PollPhase::FirstTry);
    poll.next(PollEvent::TryAgain);
    assert_eq!(poll.action(), PollPhase::Finished);
    assert!(pollee.notify_observers(IN).is_empty());
}

#[test]
fn observers_are_notified_of_what_they_asked_for() {
    let mut pollee = Pollee::new();
    pollee.register_observer(1, IN);
    pollee.register_observer(2, Events { bits: Events::OUT });
    let numbers = |events: u32| -> Vec<usize> {
        pollee.notify_observers(Events { bits: events }).iter().map(|o| o.observer).collect()
    };
    assert_eq!(numbers(Events::IN), vec![1]);
    assert_eq!(numbers(Events::OUT), vec![2]);
    assert_eq!(numbers(Events::IN | Events::OUT), vec![1, 2]);
    // Errors and hang-ups are for all
    assert_eq!(numbers(Events::ERR), vec![1, 2]);
    assert_eq!(numbers(Events::HUP), vec![1, 2]);
    assert_eq!(numbers(Events::PRI), Vec::<usize>::new());
    pollee.unregister_observer(1);
    assert_eq!(pollee.notify_observers(Events { bits: Events::ERR }).len(), 1);
}

#[test]
fn polling_fails_where_registering_or_waiting_does() {
    let mut poll = PollLoop::new(false, IN);
    poll.next(PollEvent::TryAgain);
    poll.next(PollEvent::Registered(false));
    assert_eq!(poll.action(), PollPhase::NotRegistered);

    let mut poll = PollLoop::new(false, IN);
    poll.next(PollEvent::TryAgain);
    poll.next(PollEvent::Registered(true));
    poll.next(PollEvent::TryAgain);
    poll.next(PollEvent::WaitFailed(WaitError::Interrupted));
    assert_eq!(poll.action(), PollPhase::WaitFailed { error: WaitError::Interrupted });
}

#[test]
fn deadlines() {
    let c = WaitContext::new();
    assert_eq!(c.deadline(), None);
    assert_eq!(c.remaining_timeout(5), None);
    let c = c.with_timeout(10, Some(5));
    assert_eq!(c.deadline(), Some(15));
    assert_eq!(c.remaining_timeout(12), Some(3));
    assert_eq!(c.remaining_timeout(15), Some(0));
    assert_eq!(c.remaining_timeout(16), None);
    // The earlier one counts
    assert_eq!(c.with_deadline(Some(20)).deadline(), Some(15));
    assert_eq!(c.with_deadline(Some(12)).deadline(), Some(12));
    assert_eq!(c.with_deadline(None).deadline(), Some(15));
    assert_eq!(c.with_timeout(u64::MAX, Some(1)).deadline(), Some(15));
}

#[derive(Clone, Copy)]
struct Pending(bool);

impl CheckForInterrupt for Pending {
    fn check_for_interrupt(&self) -> bool {
        self.0
    }
}

#[test]
fn checkers_for_interrupts_are_replaced() {
    let c = WaitState::new().context().with_deadline(Some(7));
    assert!(!c.check_for_interrupt());
    let d = c.with_check_for_interrupt(Pending(true));
    assert!(d.check_for_interrupt());
    assert_eq!(d.deadline(), Some(7));
    assert!(d.with_deadline(Some(5)).check_for_interrupt());
    assert!(!d.with_check_for_interrupt(Pending(false)).check_for_interrupt());
}

#[test]
fn wakers_are_registered_and_cleared() {
    let mut thread = WaitState::new();
    let mut wait = WaitContext::new().wait_until(&mut thread);
    assert_eq!(wait.action().waker_update(), WakerUpdate::Register);
    assert_eq!(wait.next(WaitEvent::Condition(false), &mut thread), WakerUpdate::Nothing);
    assert_eq!(wait.next(WaitEvent::Interrupt(false), &mut thread), WakerUpdate::Nothing);
    assert_eq!(wait.next(WaitEvent::Unblocked, &mut thread), WakerUpdate::Register);
    assert_eq!(wait.next(WaitEvent::Condition(true), &mut thread), WakerUpdate::Clear);

    let mut wait = WaitContext::new().wait_until(&mut thread);
    wait.next(WaitEvent::Condition(false), &mut thread);
    assert_eq!(wait.next(WaitEvent::Interrupt(true), &mut thread), WakerUpdate::Clear);
}

#[test]
fn waits_end() {
    let mut thread = WaitState::new();
    // At once
    let mut wait = WaitContext::new().wait_until(&mut thread);
    assert_eq!(thread.state(), ThreadState::Waiting);
    wait.next(WaitEvent::Condition(true), &mut thread);
    assert_eq!(wait.action(), WaitPhase::Ready);
    assert_eq!(thread.state(), ThreadState::RunningInHost);

    // After a wakeup
    let mut wait = WaitContext::new().wait_until(&mut thread);
    wait.next(WaitEvent::Condition(false), &mut thread);
    wait.next(WaitEvent::Interrupt(false), &mut thread);
    assert_eq!(wait.action(), WaitPhase::Block { timeout: None });
    assert_eq!(thread.wake(), ThreadAction::WakeOne);
    assert_eq!(thread.wake(), ThreadAction::Nothing);
    assert_eq!(thread.state(), ThreadState::Woken);
    wait.next(WaitEvent::Unblocked, &mut thread);
    assert_eq!(wait.action(), WaitPhase::Evaluate);
    assert_eq!(thread.state(), ThreadState::Waiting);

    // By an interrupt
    wait.next(WaitEvent::Condition(false), &mut thread);
    wait.next(WaitEvent::Interrupt(true), &mut thread);
    assert_eq!(wait.action(), WaitPhase::Failed { error: WaitError::Interrupted });
    assert_eq!(thread.state(), ThreadState::RunningInHost);

    // Because the deadline has passed, though there is an interrupt
    let mut wait = WaitContext::new().with_deadline(Some(10)).wait_until(&mut thread);
    wait.next(WaitEvent::Condition(false), &mut thread);
    assert_eq!(wait.action(), WaitPhase::ReadClock);
    wait.next(WaitEvent::Clock(11), &mut thread);
    assert_eq!(wait.action(), WaitPhase::Failed { error: WaitError::TimedOut });

    // While it is blocked
    let mut wait = WaitContext::new().with_deadline(Some(10)).wait_until(&mut thread);
    wait.next(WaitEvent::Condition(false), &mut thread);
    wait.next(WaitEvent::Clock(4), &mut thread);
    wait.next(WaitEvent::Interrupt(false), &mut thread);
    assert_eq!(wait.action(), WaitPhase::Block { timeout: Some(6) });
    wait.next(WaitEvent::TimedOut, &mut thread);
    assert_eq!(wait.action(), WaitPhase::Failed { error: WaitError::TimedOut });
}

#[test]
fn guests_are_interrupted() {
    let mut thread = WaitState::new();
    assert_eq!(thread.interrupt(), ThreadAction::Nothing);
    thread.prepare_to_run_guest();
    assert!(thread.confirm_running_guest(true));
    assert_eq!(thread.wake(), ThreadAction::Nothing);
    assert_eq!(thread.interrupt(), ThreadAction::InterruptThread);
    assert_eq!(thread.interrupt(), ThreadAction::Nothing);
    assert_eq!(thread.state(), ThreadState::InterruptedGuest);
    thread.finish_running_guest();
    thread.prepare_to_run_guest();
    assert!(!thread.confirm_running_guest(false));
    assert_eq!(thread.state(), ThreadState::RunningInHost);
}

#[test]
fn words_of_thread_states() {
    for word in 0..5 {
        assert_eq!(ThreadState::from_word(word).unwrap().word(), word);
    }
    assert_eq!(ThreadState::from_word(5), None);
}

#[test]
fn sets_of_events() {
    assert!(Events::empty().is_empty());
    let e = Events { bits: Events::IN | Events::HUP };
    assert!(e.contains(Events::IN) && !e.contains(Events::IN | Events::OUT));
    assert!(e.intersects(Events::IN | Events::OUT) && !e.intersects(Events::OUT));
}
