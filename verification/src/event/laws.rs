//! What holds of observing events and of waiting.
use crate::event::polling::{
    is_by_other, is_interested, notified, poll_after, registered, unregistered, Observation,
    PollEvent, PollPhase,
};
use crate::event::wait::{
    deadline_after, earlier, interrupted, remaining, wait_after, woken, ThreadAction, ThreadState,
    WaitError, WaitEvent, WaitPhase,
};
use vstd::prelude::*;

verus! {

proof fn lemma_kept(all: Seq<Observation>, keep: spec_fn(Observation) -> bool, o: Observation)
    ensures
        all.filter(keep).contains(o) <==> all.contains(o) && keep(o),
    decreases all.len(),
{
    reveal(Seq::filter);
    if all.len() > 0 {
        let head = all.drop_last();
        let fewer = head.filter(keep);
        let kept = all.filter(keep);
        lemma_kept(head, keep, o);
        assert(all =~= head.push(all.last()));
        if all.contains(o) {
            let k = choose|k: int| 0 <= k < all.len() && all[k] == o;
            if k < head.len() {
                assert(head[k] == o);
            }
        }
        if head.contains(o) {
            let k = choose|k: int| 0 <= k < head.len() && head[k] == o;
            assert(all[k] == o);
        }
        if kept.contains(o) {
            let k = choose|k: int| 0 <= k < kept.len() && kept[k] == o;
            if k < fewer.len() {
                assert(fewer[k] == o);
            } else {
                assert(all[all.len() - 1] == o);
            }
        }
        if fewer.contains(o) {
            let k = choose|k: int| 0 <= k < fewer.len() && fewer[k] == o;
            assert(kept[k] == o);
        }
        if keep(all.last()) {
            assert(kept[kept.len() - 1] == all.last());
        }
    }
}

/// Events are told to exactly those who observe one of them.
pub proof fn lemma_observers_are_notified(all: Seq<Observation>, events: u32, o: Observation)
    ensures
        notified(all, events).contains(o) <==> all.contains(o) && o.filter & events != 0,
{
    lemma_kept(all, is_interested(events), o);
}

/// An observer that has registered is notified of every event that it asked for, and of errors
/// (0x8) and hang-ups (0x10), until it unregisters; the others are notified as before.
pub proof fn lemma_registered_observers(
    all: Seq<Observation>,
    observer: usize,
    filter: u32,
    events: u32,
    o: Observation,
)
    ensures
        filter & events != 0 || events & 0x8 != 0 || events & 0x10 != 0 ==> exists|k: int|
            0 <= k < notified(registered(all, observer, filter), events).len() && (
            #[trigger] notified(registered(all, observer, filter), events)[k]).observer == observer,
        notified(all, events).contains(o) ==> notified(
            registered(all, observer, filter),
            events,
        ).contains(o),
        !unregistered(all, o.observer).contains(o),
        o.observer != observer && all.contains(o) ==> unregistered(all, observer).contains(o),
        unregistered(all, observer).contains(o) ==> all.contains(o),
{
    let both = registered(all, observer, filter);
    let own = both.last();
    assert(own.observer == observer);
    assert(filter & events != 0 || events & 0x8 != 0 || events & 0x10 != 0 ==> (filter | (0x8u32
        | 0x10u32)) & events != 0) by (bit_vector);
    lemma_kept(both, is_interested(events), own);
    lemma_kept(both, is_interested(events), o);
    lemma_kept(all, is_interested(events), o);
    lemma_kept(all, is_by_other(o.observer), o);
    lemma_kept(all, is_by_other(observer), o);
    assert(both[both.len() - 1] == own);
    if own.filter & events != 0 {
        assert(notified(both, events).contains(own));
        let k = choose|k: int| 0 <= k < notified(both, events).len() && notified(both, events)[k] == own;
        assert(notified(both, events)[k].observer == observer);
    }
    if all.contains(o) {
        let k = choose|k: int| 0 <= k < all.len() && all[k] == o;
        assert(both[k] == o);
    }
}

/// Polling tries at once. Where that should be retried, it registers and tries again, and then waits
/// between tries, until a try has a result or waiting fails. Without blocking it ends at once.
pub proof fn lemma_polling_retries(nonblock: bool, error: WaitError)
    ensures
        poll_after(nonblock, PollPhase::FirstTry, PollEvent::Tried) is Finished,
        poll_after(true, PollPhase::FirstTry, PollEvent::TryAgain) is Finished,
        poll_after(false, PollPhase::FirstTry, PollEvent::TryAgain) is Register,
        poll_after(nonblock, PollPhase::Register, PollEvent::Registered(true)) is Try,
        poll_after(nonblock, PollPhase::Register, PollEvent::Registered(false)) is NotRegistered,
        poll_after(nonblock, PollPhase::Try, PollEvent::Tried) is Finished,
        poll_after(nonblock, PollPhase::Try, PollEvent::TryAgain) is Wait,
        poll_after(nonblock, PollPhase::Wait, PollEvent::Notified) is Try,
        poll_after(nonblock, PollPhase::Wait, PollEvent::WaitFailed(error))
            == (PollPhase::WaitFailed { error }),
{
}

/// Polling that has ended goes no further, and ends only with a result, or because registering or
/// waiting failed, or at once without blocking.
pub proof fn lemma_polling_ends(nonblock: bool, phase: PollPhase, event: PollEvent)
    ensures
        phase is Finished || phase is NotRegistered || phase is WaitFailed ==> poll_after(
            nonblock,
            phase,
            event,
        ) == phase,
        poll_after(nonblock, phase, event) is Finished && !(phase is Finished) ==> event is Tried
            || (nonblock && phase is FirstTry && event is TryAgain),
{
}

/// A thread that waits is woken, by waking or by interrupting it, and one that runs guest code is
/// interrupted only; the state of any other thread stays, and nothing is done about it.
pub proof fn lemma_threads_are_woken(state: ThreadState)
    ensures
        woken(ThreadState::Waiting) == (ThreadState::Woken, ThreadAction::WakeOne),
        interrupted(ThreadState::Waiting) == (ThreadState::Woken, ThreadAction::WakeOne),
        woken(ThreadState::RunningInGuest) == (ThreadState::RunningInGuest, ThreadAction::Nothing),
        interrupted(ThreadState::RunningInGuest) == (
            ThreadState::InterruptedGuest,
            ThreadAction::InterruptThread,
        ),
        state is RunningInHost || state is Woken || state is InterruptedGuest ==> woken(state) == (
            state,
            ThreadAction::Nothing,
        ) && interrupted(state) == (state, ThreadAction::Nothing),
{
}

/// Different states are kept as different words.
pub proof fn lemma_states_are_told_apart(a: ThreadState, b: ThreadState)
    ensures
        a.word_spec() == b.word_spec() <==> a == b,
        a.word_spec() <= 4,
        ThreadState::RunningInHost.word_spec() == 0,
{
}

/// Of two deadlines the earlier one counts: it is one of them and later than neither. There is none
/// exactly if neither is given.
pub proof fn lemma_earlier_deadline(a: Option<u64>, b: Option<u64>)
    ensures
        earlier(a, b) is None <==> a is None && b is None,
        earlier(a, b) == a || earlier(a, b) == b,
        a is Some ==> earlier(a, b)->Some_0 <= a->Some_0,
        b is Some ==> earlier(a, b)->Some_0 <= b->Some_0,
{
}

/// After a timeout has been set, just that long remains, unless there is an earlier deadline, of
/// which then no more than that remains. As time passes, less remains by just as much.
pub proof fn lemma_timeouts_remain(
    before: Option<u64>,
    now: u64,
    timeout: u64,
    passed: u64,
)
    requires
        now + timeout <= u64::MAX,
        passed <= timeout,
    ensures
        remaining(earlier(None, deadline_after(now, Some(timeout))), (now + passed) as u64) == Some(
            (timeout - passed) as u64,
        ),
        before is Some && now <= before->Some_0 ==> {
            let left = remaining(earlier(before, deadline_after(now, Some(timeout))), now);
            left is Some && left->Some_0 <= timeout && now + left->Some_0 <= before->Some_0
        },
        earlier(before, deadline_after(now, None)) == before,
{
}

/// Nothing remains of a deadline that has passed, and none is set by a timeout beyond the end of
/// time.
pub proof fn lemma_passed_deadlines(deadline: u64, now: u64, timeout: u64)
    ensures
        now > deadline ==> remaining(Some(deadline), now) is None,
        now == deadline ==> remaining(Some(deadline), now) == Some(0u64),
        now + timeout > u64::MAX ==> deadline_after(now, Some(timeout)) is None,
        remaining(None, now) is None,
{
}

/// A wait whose condition does not hold yet blocks until its deadline at the latest, unless it is
/// interrupted or the deadline has passed. It times out when the deadline passes, and when woken it
/// looks at the condition again.
pub proof fn lemma_wait_with_deadline(deadline: u64, now: u64)
    requires
        now <= deadline,
    ensures
        ({
            let d = Some(deadline);
            let timeout = Some((deadline - now) as u64);
            let looked = wait_after(d, WaitPhase::Evaluate, WaitEvent::Condition(false));
            let clocked = wait_after(d, looked, WaitEvent::Clock(now));
            let blocked = wait_after(d, clocked, WaitEvent::Interrupt(false));
            &&& wait_after(d, WaitPhase::Evaluate, WaitEvent::Condition(true)) is Ready
            &&& looked is ReadClock
            &&& clocked == (WaitPhase::CheckInterrupt { timeout })
            &&& wait_after(d, clocked, WaitEvent::Interrupt(true)) == (WaitPhase::Failed {
                error: WaitError::Interrupted,
            })
            &&& blocked == (WaitPhase::Block { timeout })
            &&& wait_after(d, blocked, WaitEvent::TimedOut) == (WaitPhase::Failed {
                error: WaitError::TimedOut,
            })
            &&& wait_after(d, blocked, WaitEvent::Unblocked) is Evaluate
        }),
{
}

/// A wait without a deadline blocks until it is woken, unless it is interrupted.
pub proof fn lemma_wait_without_deadline()
    ensures
        ({
            let looked = wait_after(None, WaitPhase::Evaluate, WaitEvent::Condition(false));
            let blocked = wait_after(None, looked, WaitEvent::Interrupt(false));
            &&& wait_after(None, WaitPhase::Evaluate, WaitEvent::Condition(true)) is Ready
            &&& wait_after(None, looked, WaitEvent::Interrupt(true)) == (WaitPhase::Failed {
                error: WaitError::Interrupted,
            })
            &&& blocked == (WaitPhase::Block { timeout: None })
            &&& wait_after(None, blocked, WaitEvent::Unblocked) is Evaluate
            &&& wait_after(None, blocked, WaitEvent::TimedOut) == blocked
        }),
{
}

/// A wait that has ended stays as it ended.
pub proof fn lemma_ended_waits(deadline: Option<u64>, phase: WaitPhase, event: WaitEvent)
    requires
        phase is Ready || phase is Failed,
    ensures
        wait_after(deadline, phase, event) == phase,
{
}

} // verus!
