//! Interruptible waits.
//!
//! A thread is running, waiting, or running in the guest. This module says how its state changes
//! when it waits, is woken up or is interrupted; whoever drives it changes the state atomically,
//! blocks the thread and wakes it.
use vstd::prelude::*;

verus! {

/// An error that can occur during a wait.
#[derive(Clone, Copy, Debug, PartialEq, Eq, Structural)]
pub enum WaitError {
    /// The wait was interrupted.
    Interrupted,
    /// The wait timed out.
    TimedOut,
}

/// The state of a thread.
#[derive(Clone, Copy, Debug, PartialEq, Eq, Structural)]
pub enum ThreadState {
    /// The thread is running in the host/shim (this includes waiting non-interruptibly).
    RunningInHost,
    /// The thread is waiting via [`WaitLoop`].
    Waiting,
    /// The thread is waiting and has been woken up to reevaluate its wait condition.
    Woken,
    /// The thread is running guest code (or transitioning to/from guest code).
    RunningInGuest,
    /// The thread is running guest code and something has called the platform to interrupt it. It
    /// will return to the shim as soon as possible.
    InterruptedGuest,
}

impl ThreadState {
    /// The word that the state is kept in.
    pub open spec fn word_spec(self) -> u32 {
        match self {
            ThreadState::RunningInHost => 0,
            ThreadState::Waiting => 1,
            ThreadState::Woken => 2,
            ThreadState::RunningInGuest => 3,
            ThreadState::InterruptedGuest => 4,
        }
    }

    /// The word that the state is kept in.
    pub fn word(self) -> (r: u32)
        ensures
            r == self.word_spec(),
    {
        match self {
            ThreadState::RunningInHost => 0,
            ThreadState::Waiting => 1,
            ThreadState::Woken => 2,
            ThreadState::RunningInGuest => 3,
            ThreadState::InterruptedGuest => 4,
        }
    }

    /// The state that a word stands for.
    pub fn from_word(word: u32) -> (r: Option<ThreadState>)
        ensures
            r is Some <==> word <= 4,
            r is Some ==> r->Some_0.word_spec() == word,
    {
        if word == 0 {
            Some(ThreadState::RunningInHost)
        } else if word == 1 {
            Some(ThreadState::Waiting)
        } else if word == 2 {
            Some(ThreadState::Woken)
        } else if word == 3 {
            Some(ThreadState::RunningInGuest)
        } else if word == 4 {
            Some(ThreadState::InterruptedGuest)
        } else {
            None
        }
    }
}

/// What is to be done for a thread whose state has changed.
#[derive(Clone, Copy, Debug, PartialEq, Eq, Structural)]
pub enum ThreadAction {
    /// Nothing.
    Nothing,
    /// Wake the thread, which is blocked.
    WakeOne,
    /// Have the platform interrupt the thread, which runs guest code.
    InterruptThread,
}

/// How waking a thread changes its state. Only a thread that is waiting is woken; one that runs in
/// the guest is not disturbed.
pub open spec fn woken(state: ThreadState) -> (ThreadState, ThreadAction) {
    if state is Waiting {
        (ThreadState::Woken, ThreadAction::WakeOne)
    } else {
        (state, ThreadAction::Nothing)
    }
}

/// How interrupting a thread changes its state, whether it is waiting or running guest code.
pub open spec fn interrupted(state: ThreadState) -> (ThreadState, ThreadAction) {
    if state is Waiting {
        (ThreadState::Woken, ThreadAction::WakeOne)
    } else if state is RunningInGuest {
        (ThreadState::InterruptedGuest, ThreadAction::InterruptThread)
    } else {
        (state, ThreadAction::Nothing)
    }
}

/// Wakes up the thread if it is waiting (but not if it is running in the guest).
pub fn wake(state: ThreadState) -> (r: (ThreadState, ThreadAction))
    ensures
        r == woken(state),
{
    match state {
        ThreadState::Waiting => (ThreadState::Woken, ThreadAction::WakeOne),
        _ => (state, ThreadAction::Nothing),
    }
}

/// Interrupts the thread, whether it is waiting or running guest code.
pub fn interrupt(state: ThreadState) -> (r: (ThreadState, ThreadAction))
    ensures
        r == interrupted(state),
{
    match state {
        ThreadState::Waiting => (ThreadState::Woken, ThreadAction::WakeOne),
        ThreadState::RunningInGuest => (
            ThreadState::InterruptedGuest,
            ThreadAction::InterruptThread,
        ),
        _ => (state, ThreadAction::Nothing),
    }
}

/// A wakeup or an interrupt that comes after a thread has begun to wait, but before it blocks, is
/// not missed: whatever the state was, it is no longer the one that the thread blocks in.
pub proof fn lemma_wakeups_are_not_missed(state: ThreadState)
    ensures
        woken(state).0.word_spec() != ThreadState::Waiting.word_spec(),
        interrupted(state).0.word_spec() != ThreadState::Waiting.word_spec(),
{
}

/// Waking or interrupting a thread once more changes nothing.
pub proof fn lemma_waking_is_idempotent(state: ThreadState)
    ensures
        woken(woken(state).0) == (woken(state).0, ThreadAction::Nothing),
        interrupted(interrupted(state).0) == (interrupted(state).0, ThreadAction::Nothing),
        woken(interrupted(state).0).1 is Nothing,
{
}

/// The wait state of a thread.
#[derive(Clone, Copy, Debug, PartialEq, Eq, Structural)]
pub struct WaitState {
    state: ThreadState,
}

impl View for WaitState {
    type V = ThreadState;

    closed spec fn view(&self) -> ThreadState {
        self.state
    }
}

impl WaitState {
    /// Creates a new wait state, of a thread that is running.
    pub fn new() -> (r: Self)
        ensures
            r@ == ThreadState::RunningInHost,
    {
        WaitState { state: ThreadState::RunningInHost }
    }

    /// A context for waits, without a deadline. They are never interrupted.
    pub fn context(&self) -> (r: WaitContext<()>)
        ensures
            r@ is None,
    {
        WaitContext::new()
    }

    /// The state of the thread.
    pub fn state(&self) -> (r: ThreadState)
        ensures
            r == self@,
    {
        self.state
    }

    /// Wakes the thread.
    pub fn wake(&mut self) -> (r: ThreadAction)
        ensures
            (final(self)@, r) == woken(old(self)@),
    {
        let (state, action) = wake(self.state);
        self.state = state;
        action
    }

    /// Interrupts the thread.
    pub fn interrupt(&mut self) -> (r: ThreadAction)
        ensures
            (final(self)@, r) == interrupted(old(self)@),
    {
        let (state, action) = interrupt(self.state);
        self.state = state;
        action
    }

    /// Sets the wait state so that an interrupt will interrupt the guest execution.
    ///
    /// After this, see if the guest is still ready to run, and say so to
    /// [`confirm_running_guest`](Self::confirm_running_guest).
    pub fn prepare_to_run_guest(&mut self)
        requires
            old(self)@ == ThreadState::RunningInHost,
        ensures
            final(self)@ == ThreadState::RunningInGuest,
    {
        self.state = ThreadState::RunningInGuest;
    }

    /// Says whether the guest is ready to run. If it is, then
    /// [`finish_running_guest`](Self::finish_running_guest) must be called before the wait state is
    /// used again.
    pub fn confirm_running_guest(&mut self, ready_to_run_guest: bool) -> (r: bool)
        ensures
            r == ready_to_run_guest,
            final(self)@ == if ready_to_run_guest {
                old(self)@
            } else {
                ThreadState::RunningInHost
            },
    {
        if !ready_to_run_guest {
            self.state = ThreadState::RunningInHost;
        }
        ready_to_run_guest
    }

    /// Sets the wait state back to running after running the guest.
    pub fn finish_running_guest(&mut self)
        requires
            old(self)@ == ThreadState::RunningInGuest || old(self)@
                == ThreadState::InterruptedGuest,
        ensures
            final(self)@ == ThreadState::RunningInHost,
    {
        self.state = ThreadState::RunningInHost;
    }

    /// Moves the thread into the waiting state. This must happen before evaluating the wait and
    /// interrupt conditions so that wakeups are not missed.
    pub fn start_wait(&mut self)
        ensures
            final(self)@ == ThreadState::Waiting,
    {
        self.state = ThreadState::Waiting;
    }

    /// Returns the thread to the running state after a wait.
    pub fn end_wait(&mut self)
        ensures
            final(self)@ == ThreadState::RunningInHost,
    {
        self.state = ThreadState::RunningInHost;
    }
}

/// Says whether a wait should be interrupted.
pub trait CheckForInterrupt {
    /// The answers that are possible: any, unless the checker says more.
    open spec fn interrupt_outcome(&self, r: bool) -> bool {
        true
    }

    /// Whether a wait should be interrupted.
    fn check_for_interrupt(&self) -> (r: bool)
        ensures
            self.interrupt_outcome(r),
    ;
}

/// Waits are never interrupted.
impl CheckForInterrupt for () {
    open spec fn interrupt_outcome(&self, r: bool) -> bool {
        !r
    }

    fn check_for_interrupt(&self) -> (r: bool) {
        false
    }
}

/// A context used to perform interruptible waits. Points in time are in nanoseconds.
#[derive(Clone, Copy, Debug)]
pub struct WaitContext<C> {
    deadline: Option<u64>,
    check: C,
}

impl<C> View for WaitContext<C> {
    type V = Option<u64>;

    closed spec fn view(&self) -> Option<u64> {
        self.deadline
    }
}

/// The earlier of two deadlines.
pub open spec fn earlier(a: Option<u64>, b: Option<u64>) -> Option<u64> {
    match (a, b) {
        (Some(x), Some(y)) => if y < x {
            b
        } else {
            a
        },
        (None, _) => b,
        (_, None) => a,
    }
}

/// The deadline that a timeout stands for. A timeout beyond the end of time is none.
pub open spec fn deadline_after(now: u64, timeout: Option<u64>) -> Option<u64> {
    if timeout is Some && now + timeout->Some_0 <= u64::MAX {
        Some((now + timeout->Some_0) as u64)
    } else {
        None
    }
}

impl WaitContext<()> {
    /// A context without a deadline, whose waits are never interrupted.
    pub fn new() -> (r: Self)
        ensures
            r@ is None,
    {
        WaitContext { deadline: None, check: () }
    }
}

impl<C: CheckForInterrupt + Copy> WaitContext<C> {
    /// What says whether waits should be interrupted.
    pub closed spec fn checker(&self) -> C {
        self.check
    }

    /// Returns a new context that uses the given checker for interrupts.
    #[must_use]
    pub fn with_check_for_interrupt<D: CheckForInterrupt + Copy>(&self, f: D) -> (r: WaitContext<D>)
        ensures
            r@ == self@,
            r.checker() == f,
    {
        WaitContext { deadline: self.deadline, check: f }
    }

    /// Whether a wait should be interrupted.
    pub fn check_for_interrupt(&self) -> (r: bool)
        ensures
            self.checker().interrupt_outcome(r),
    {
        self.check.check_for_interrupt()
    }

    /// Returns a new context that has a deadline after the given duration.
    ///
    /// If the existing context already has an earlier deadline or if no timeout is provided, then
    /// this just clones the context.
    #[must_use]
    pub fn with_timeout(&self, now: u64, timeout: Option<u64>) -> (r: Self)
        ensures
            r@ == earlier(self@, deadline_after(now, timeout)),
            r.checker() == self.checker(),
    {
        match timeout {
            Some(timeout) => if timeout <= u64::MAX - now {
                self.with_deadline(Some(now + timeout))
            } else {
                *self
            },
            None => *self,
        }
    }

    /// Returns a new context that has the given deadline.
    ///
    /// If the existing context already has an earlier deadline, then this just clones the context.
    #[must_use]
    pub fn with_deadline(&self, deadline: Option<u64>) -> (r: Self)
        ensures
            r@ == earlier(self@, deadline),
            r.checker() == self.checker(),
    {
        match (deadline, self.deadline) {
            (Some(deadline), Some(d)) => if deadline < d {
                WaitContext { deadline: Some(deadline), check: self.check }
            } else {
                *self
            },
            (Some(deadline), None) => WaitContext { deadline: Some(deadline), check: self.check },
            (None, _) => *self,
        }
    }

    /// Returns the deadline for this wait context, if any.
    pub fn deadline(&self) -> (r: Option<u64>)
        ensures
            r == self@,
    {
        self.deadline
    }

    /// Returns the remaining timeout for this wait context, if any. There is none when the
    /// deadline has passed.
    pub fn remaining_timeout(&self, now: u64) -> (r: Option<u64>)
        ensures
            r == remaining(self@, now),
    {
        match self.deadline {
            Some(deadline) => if now <= deadline {
                Some(deadline - now)
            } else {
                None
            },
            None => None,
        }
    }

    /// Begin to wait until a condition holds. The thread must be running. The platform is to be told
    /// of the waker of the thread, before the thread is put in the waiting state.
    pub fn wait_until(&self, thread: &mut WaitState) -> (r: WaitLoop)
        requires
            old(thread)@ == ThreadState::RunningInHost,
        ensures
            r.deadline() == self@,
            r.phase() == WaitPhase::Evaluate,
            final(thread)@ == ThreadState::Waiting,
    {
        thread.start_wait();
        WaitLoop { deadline: self.deadline, phase: WaitPhase::Evaluate }
    }
}

/// The time that remains until a deadline that has not passed.
pub open spec fn remaining(deadline: Option<u64>, now: u64) -> Option<u64> {
    if deadline is Some && now <= deadline->Some_0 {
        Some((deadline->Some_0 - now) as u64)
    } else {
        None
    }
}

/// What a thread that waits is to do.
#[derive(Clone, Copy, Debug, PartialEq, Eq, Structural)]
pub enum WaitPhase {
    /// Evaluate the wait condition.
    Evaluate,
    /// Read the clock.
    ReadClock,
    /// Look whether the wait should be interrupted.
    CheckInterrupt { timeout: Option<u64> },
    /// Block while the state is [`ThreadState::Waiting`], for so long at most.
    Block { timeout: Option<u64> },
    /// The wait has ended: the condition holds.
    Ready,
    /// The wait has ended with an error.
    Failed { error: WaitError },
}

/// What a thread that waits has found.
#[derive(Clone, Copy, Debug, PartialEq, Eq, Structural)]
pub enum WaitEvent {
    /// Whether the wait condition holds.
    Condition(bool),
    /// What time it is.
    Clock(u64),
    /// Whether the wait should be interrupted.
    Interrupt(bool),
    /// The thread is no longer blocked, or was not blocked because its state had changed.
    Unblocked,
    /// The time to block is over.
    TimedOut,
}

/// How a wait goes on. The condition is evaluated before the thread blocks, and each time that it
/// has been woken. A deadline that has passed counts before an interrupt.
pub open spec fn wait_after(deadline: Option<u64>, phase: WaitPhase, event: WaitEvent) -> WaitPhase {
    match (phase, event) {
        (WaitPhase::Evaluate, WaitEvent::Condition(ready)) => if ready {
            WaitPhase::Ready
        } else if deadline is Some {
            WaitPhase::ReadClock
        } else {
            WaitPhase::CheckInterrupt { timeout: None }
        },
        (WaitPhase::ReadClock, WaitEvent::Clock(now)) => match remaining(deadline, now) {
            Some(timeout) => WaitPhase::CheckInterrupt { timeout: Some(timeout) },
            None => WaitPhase::Failed { error: WaitError::TimedOut },
        },
        (WaitPhase::CheckInterrupt { timeout }, WaitEvent::Interrupt(pending)) => if pending {
            WaitPhase::Failed { error: WaitError::Interrupted }
        } else {
            WaitPhase::Block { timeout }
        },
        (WaitPhase::Block { .. }, WaitEvent::Unblocked) => WaitPhase::Evaluate,
        (WaitPhase::Block { timeout: Some(_) }, WaitEvent::TimedOut) => WaitPhase::Failed {
            error: WaitError::TimedOut,
        },
        _ => phase,
    }
}

/// What the platform is to be told of the waker of a thread.
#[derive(Clone, Copy, Debug, PartialEq, Eq, Structural)]
pub enum WakerUpdate {
    /// Nothing.
    Nothing,
    /// By which waker the thread is woken up.
    Register,
    /// That there is no waker any more.
    Clear,
}

impl WaitPhase {
    /// Whether the wait has ended.
    pub open spec fn is_ended(self) -> bool {
        self is Ready || self is Failed
    }

    /// What the platform is to be told upon entering the phase: of the waker before the condition
    /// is evaluated, and that there is none once the wait has ended.
    pub open spec fn waker_update_spec(self) -> WakerUpdate {
        match self {
            WaitPhase::Evaluate => WakerUpdate::Register,
            WaitPhase::Ready | WaitPhase::Failed { .. } => WakerUpdate::Clear,
            _ => WakerUpdate::Nothing,
        }
    }

    /// What the platform is to be told upon entering the phase.
    pub fn waker_update(self) -> (r: WakerUpdate)
        ensures
            r == self.waker_update_spec(),
    {
        match self {
            WaitPhase::Evaluate => WakerUpdate::Register,
            WaitPhase::Ready | WaitPhase::Failed { .. } => WakerUpdate::Clear,
            _ => WakerUpdate::Nothing,
        }
    }
}

/// Whether the platform has the waker, after it has been told what is to be told upon entering one
/// phase after the other.
pub open spec fn has_waker(phases: Seq<WaitPhase>) -> bool
    decreases phases.len(),
{
    if phases.len() == 0 {
        false
    } else {
        match phases.last().waker_update_spec() {
            WakerUpdate::Register => true,
            WakerUpdate::Clear => false,
            WakerUpdate::Nothing => has_waker(phases.drop_last()),
        }
    }
}

/// Whether phases are those of a wait from its beginning on, given what was found in each.
pub open spec fn are_phases(
    deadline: Option<u64>,
    phases: Seq<WaitPhase>,
    events: Seq<WaitEvent>,
) -> bool {
    &&& phases.len() == events.len() + 1
    &&& phases[0] == WaitPhase::Evaluate
    &&& forall|k: int|
        0 <= k < events.len() ==> #[trigger] phases[k + 1] == wait_after(
            deadline,
            phases[k],
            events[k],
        )
}

/// The platform has the waker for as long as a wait lasts, and on every return of the wait, whether
/// the condition holds or there is an error, it has last been told that there is none.
pub proof fn lemma_waker_is_cleared(
    deadline: Option<u64>,
    phases: Seq<WaitPhase>,
    events: Seq<WaitEvent>,
)
    requires
        are_phases(deadline, phases, events),
    ensures
        has_waker(phases) <==> !phases.last().is_ended(),
    decreases events.len(),
{
    if events.len() > 0 {
        let fewer = phases.drop_last();
        assert forall|k: int| 0 <= k < events.len() - 1 implies #[trigger] fewer[k + 1]
            == wait_after(deadline, fewer[k], events.drop_last()[k]) by {
            assert(phases[k + 1] == wait_after(deadline, phases[k], events[k]));
        }
        lemma_waker_is_cleared(deadline, fewer, events.drop_last());
        let last = events.len() - 1;
        assert(phases[last + 1] == wait_after(deadline, phases[last], events[last]));
    }
}

/// A wait until a condition holds.
#[derive(Clone, Copy, Debug, PartialEq, Eq, Structural)]
pub struct WaitLoop {
    deadline: Option<u64>,
    phase: WaitPhase,
}

impl WaitLoop {
    /// When the wait ends at the latest.
    pub closed spec fn deadline(&self) -> Option<u64> {
        self.deadline
    }

    /// What is to be done.
    pub closed spec fn phase(&self) -> WaitPhase {
        self.phase
    }

    /// What is to be done.
    pub fn action(&self) -> (r: WaitPhase)
        ensures
            r == self.phase(),
    {
        self.phase
    }

    /// Go on with what was found. The thread is waiting until the wait has ended, and then
    /// running. Returns what the platform is to be told of the waker of the thread: before the
    /// thread is put in the waiting state, and after it has been put back in the running state.
    pub fn next(&mut self, event: WaitEvent, thread: &mut WaitState) -> (r: WakerUpdate)
        ensures
            r == final(self).phase().waker_update_spec(),
            final(self).deadline() == old(self).deadline(),
            final(self).phase() == wait_after(old(self).deadline(), old(self).phase(), event),
            final(thread)@ == match final(self).phase() {
                WaitPhase::Ready => ThreadState::RunningInHost,
                WaitPhase::Failed { .. } => ThreadState::RunningInHost,
                WaitPhase::Evaluate => ThreadState::Waiting,
                _ => old(thread)@,
            },
    {
        let phase = match (self.phase, event) {
            (WaitPhase::Evaluate, WaitEvent::Condition(ready)) => if ready {
                WaitPhase::Ready
            } else if self.deadline.is_some() {
                WaitPhase::ReadClock
            } else {
                WaitPhase::CheckInterrupt { timeout: None }
            },
            (WaitPhase::ReadClock, WaitEvent::Clock(now)) => {
                match WaitContext::new().with_deadline(self.deadline).remaining_timeout(now) {
                    Some(timeout) => WaitPhase::CheckInterrupt { timeout: Some(timeout) },
                    None => WaitPhase::Failed { error: WaitError::TimedOut },
                }
            },
            (WaitPhase::CheckInterrupt { timeout }, WaitEvent::Interrupt(pending)) => if pending {
                WaitPhase::Failed { error: WaitError::Interrupted }
            } else {
                WaitPhase::Block { timeout }
            },
            (WaitPhase::Block { .. }, WaitEvent::Unblocked) => WaitPhase::Evaluate,
            (WaitPhase::Block { timeout: Some(_) }, WaitEvent::TimedOut) => WaitPhase::Failed {
                error: WaitError::TimedOut,
            },
            _ => self.phase,
        };
        self.phase = phase;
        match phase {
            WaitPhase::Ready => thread.end_wait(),
            WaitPhase::Failed { .. } => thread.end_wait(),
            WaitPhase::Evaluate => thread.start_wait(),
            _ => {},
        }
        phase.waker_update()
    }
}

/// A wait ends with success only when its condition holds.
pub proof fn lemma_success_means_ready(deadline: Option<u64>, phase: WaitPhase, event: WaitEvent)
    requires
        !(phase is Ready),
        wait_after(deadline, phase, event) is Ready,
    ensures
        phase is Evaluate && event == WaitEvent::Condition(true),
{
}

/// A wait without a deadline does not time out.
pub proof fn lemma_no_timeout_without_deadline(phase: WaitPhase, event: WaitEvent)
    requires
        !(phase is Failed),
        !(phase is ReadClock),
        phase is Block ==> phase->Block_timeout is None,
        phase is CheckInterrupt ==> phase->CheckInterrupt_timeout is None,
    ensures
        wait_after(None, phase, event) != (WaitPhase::Failed { error: WaitError::TimedOut }),
        !(wait_after(None, phase, event) is ReadClock),
{
}

/// A deadline that has passed ends the wait, even if there is a pending interrupt.
pub proof fn lemma_passed_deadline_comes_first(deadline: u64, now: u64)
    requires
        now > deadline,
    ensures
        wait_after(
            Some(deadline),
            wait_after(Some(deadline), WaitPhase::Evaluate, WaitEvent::Condition(false)),
            WaitEvent::Clock(now),
        ) == (WaitPhase::Failed { error: WaitError::TimedOut }),
{
}

} // verus!
