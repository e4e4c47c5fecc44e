//! Polling-related functionality.
use crate::event::wait::WaitError;
use crate::event::Events;
use vstd::prelude::*;

verus! {

/// Why a tried operation has no result.
#[derive(Clone, Copy, Debug)]
pub enum TryOpError<E> {
    /// The operation should be retried.
    TryAgain,
    /// Waiting failed.
    WaitError(WaitError),
    /// The operation failed.
    Other(E),
}

/// An observer and the events that it is interested in.
#[derive(Clone, Copy, Debug, PartialEq, Eq, Structural)]
pub struct Observation {
    /// The number of the observer.
    pub observer: usize,
    pub filter: u32,
}

/// A pollable entity that can be observed for events.
pub struct Pollee {
    observers: Vec<Observation>,
}

/// Whether an observation is of one of some events.
pub open spec fn is_interested(events: u32) -> spec_fn(Observation) -> bool {
    |o: Observation| o.filter & events != 0
}

/// Whether an observation is by somebody else.
pub open spec fn is_by_other(observer: usize) -> spec_fn(Observation) -> bool {
    |o: Observation| o.observer != observer
}

/// The observations after one more observer has registered.
pub open spec fn registered(all: Seq<Observation>, observer: usize, filter: u32) -> Seq<
    Observation,
> {
    all.push(Observation { observer, filter: filter | Events::ALWAYS_POLLED })
}

/// The observations after an observer has unregistered.
pub open spec fn unregistered(all: Seq<Observation>, observer: usize) -> Seq<Observation> {
    all.filter(is_by_other(observer))
}

/// The observations that events concern.
pub open spec fn notified(all: Seq<Observation>, events: u32) -> Seq<Observation> {
    all.filter(is_interested(events))
}

impl View for Pollee {
    type V = Seq<Observation>;

    closed spec fn view(&self) -> Seq<Observation> {
        self.observers@
    }
}

impl Pollee {
    /// Create a new pollee.
    pub fn new() -> (r: Self)
        ensures
            r@ == Seq::<Observation>::empty(),
    {
        Pollee { observers: Vec::new() }
    }

    /// Register an observer for events that satisfy the given `filter`, and those that are always
    /// polled for.
    pub fn register_observer(&mut self, observer: usize, filter: Events)
        ensures
            final(self)@ == registered(old(self)@, observer, filter.bits),
    {
        self.observers.push(
            Observation { observer, filter: filter.bits | Events::ALWAYS_POLLED },
        );
    }

    /// Unregister an observer.
    pub fn unregister_observer(&mut self, observer: usize)
        ensures
            final(self)@ == unregistered(old(self)@, observer),
    {
        let ghost all = self.observers@;
        let ghost keep = is_by_other(observer);
        let mut left: Vec<Observation> = Vec::new();
        let mut k: usize = 0;
        proof {
            reveal(Seq::filter);
            assert(all.take(0).filter(keep) =~= Seq::empty());
        }
        while k < self.observers.len()
            invariant
                k <= self.observers.len(),
                self.observers@ == all,
                keep == is_by_other(observer),
                left@ == all.take(k as int).filter(keep),
            decreases self.observers.len() - k,
        {
            proof {
                reveal(Seq::filter);
                assert(all.take(k + 1).drop_last() =~= all.take(k as int));
            }
            if self.observers[k].observer != observer {
                left.push(self.observers[k]);
            }
            k = k + 1;
        }
        assert(all.take(k as int) =~= all);
        self.observers = left;
    }

    /// The observations that the given events concern: those observers are to be notified.
    pub fn notify_observers(&self, events: Events) -> (r: Vec<Observation>)
        ensures
            r@ == notified(self@, events.bits),
    {
        let ghost all = self.observers@;
        let ghost keep = is_interested(events.bits);
        let mut out: Vec<Observation> = Vec::new();
        let mut k: usize = 0;
        proof {
            reveal(Seq::filter);
            assert(all.take(0).filter(keep) =~= Seq::empty());
        }
        while k < self.observers.len()
            invariant
                k <= self.observers.len(),
                self.observers@ == all,
                keep == is_interested(events.bits),
                out@ == all.take(k as int).filter(keep),
            decreases self.observers.len() - k,
        {
            proof {
                reveal(Seq::filter);
                assert(all.take(k + 1).drop_last() =~= all.take(k as int));
            }
            if self.observers[k].filter & events.bits != 0 {
                out.push(self.observers[k]);
            }
            k = k + 1;
        }
        assert(all.take(k as int) =~= all);
        out
    }
}

impl Default for Pollee {
    fn default() -> (r: Self)
        ensures
            r@ == Seq::<Observation>::empty(),
    {
        Self::new()
    }
}

/// Errors and hang-ups are always polled for: an observer that registers is notified of them
/// whatever its filter.
pub proof fn lemma_errors_are_always_observed(observer: usize, filter: u32)
    ensures
        is_interested(Events::ERR)(
            Observation { observer, filter: filter | Events::ALWAYS_POLLED },
        ),
        is_interested(Events::HUP)(
            Observation { observer, filter: filter | Events::ALWAYS_POLLED },
        ),
{
    assert((filter | (0x8u32 | 0x10)) & 0x8 != 0) by (bit_vector);
    assert((filter | (0x8u32 | 0x10)) & 0x10 != 0) by (bit_vector);
}

/// What a thread that repeats an operation until it need not be tried again is to do.
#[derive(Clone, Copy, Debug, PartialEq, Eq, Structural)]
pub enum PollPhase {
    /// Try the operation, before anything else.
    FirstTry,
    /// Register the observer.
    Register,
    /// Try the operation.
    Try,
    /// Wait until the observer has been notified.
    Wait,
    /// The result of the last try is the result.
    Finished,
    /// Registering failed: its error is the result.
    NotRegistered,
    /// Waiting failed.
    WaitFailed { error: WaitError },
}

/// What came of it.
#[derive(Clone, Copy, Debug, PartialEq, Eq, Structural)]
pub enum PollEvent {
    /// The operation should be retried.
    TryAgain,
    /// The operation has another result.
    Tried,
    /// Whether the observer was registered.
    Registered(bool),
    /// The observer has been notified.
    Notified,
    WaitFailed(WaitError),
}

/// How polling goes on.
pub open spec fn poll_after(nonblock: bool, phase: PollPhase, event: PollEvent) -> PollPhase {
    match (phase, event) {
        (PollPhase::FirstTry, PollEvent::TryAgain) => if nonblock {
            PollPhase::Finished
        } else {
            PollPhase::Register
        },
        (PollPhase::FirstTry, PollEvent::Tried) => PollPhase::Finished,
        (PollPhase::Register, PollEvent::Registered(done)) => if done {
            PollPhase::Try
        } else {
            PollPhase::NotRegistered
        },
        (PollPhase::Try, PollEvent::TryAgain) => PollPhase::Wait,
        (PollPhase::Try, PollEvent::Tried) => PollPhase::Finished,
        (PollPhase::Wait, PollEvent::Notified) => PollPhase::Try,
        (PollPhase::Wait, PollEvent::WaitFailed(error)) => PollPhase::WaitFailed { error },
        _ => phase,
    }
}

/// Repeats an operation until it has a result other than that it should be retried, waiting after
/// each try for events. If `nonblock` is true, it is tried once.
#[derive(Clone, Copy, Debug, PartialEq, Eq, Structural)]
pub struct PollLoop {
    nonblock: bool,
    filter: u32,
    ready: bool,
    phase: PollPhase,
}

impl PollLoop {
    /// Whether the operation is tried only once.
    pub closed spec fn is_nonblock(&self) -> bool {
        self.nonblock
    }

    /// The events that the observer is registered for.
    pub closed spec fn filter_bits(&self) -> u32 {
        self.filter
    }

    /// Whether the observer has been notified since the last try.
    pub closed spec fn is_notified(&self) -> bool {
        self.ready
    }

    /// What is to be done.
    pub closed spec fn phase(&self) -> PollPhase {
        self.phase
    }

    /// Begin polling for events, and those that are always polled for.
    pub fn new(nonblock: bool, events: Events) -> (r: Self)
        ensures
            r.is_nonblock() == nonblock,
            r.filter_bits() == events.bits | Events::ALWAYS_POLLED,
            !r.is_notified(),
            r.phase() == PollPhase::FirstTry,
    {
        PollLoop {
            nonblock,
            filter: events.bits | Events::ALWAYS_POLLED,
            ready: false,
            phase: PollPhase::FirstTry,
        }
    }

    /// What is to be done.
    pub fn action(&self) -> (r: PollPhase)
        ensures
            r == self.phase(),
    {
        self.phase
    }

    /// The events to register the observer for.
    pub fn filter(&self) -> (r: Events)
        ensures
            r.bits == self.filter_bits(),
    {
        Events { bits: self.filter }
    }

    /// Whether the observer has been notified since the last try: the condition to wait for.
    pub fn is_ready(&self) -> (r: bool)
        ensures
            r == self.is_notified(),
    {
        self.ready
    }

    /// The observer is notified.
    pub fn on_events(&mut self)
        ensures
            final(self).is_notified(),
            final(self).phase() == old(self).phase(),
            final(self).is_nonblock() == old(self).is_nonblock(),
            final(self).filter_bits() == old(self).filter_bits(),
    {
        self.ready = true;
    }

    /// Go on with what came of the last action. A notification counts for one wait only.
    pub fn next(&mut self, event: PollEvent)
        ensures
            final(self).phase() == poll_after(old(self).is_nonblock(), old(self).phase(), event),
            final(self).is_notified() == (old(self).is_notified() && !(old(self).phase() is Wait
                && event is Notified)),
            final(self).is_nonblock() == old(self).is_nonblock(),
            final(self).filter_bits() == old(self).filter_bits(),
    {
        let phase = match (self.phase, event) {
            (PollPhase::FirstTry, PollEvent::TryAgain) => if self.nonblock {
                PollPhase::Finished
            } else {
                PollPhase::Register
            },
            (PollPhase::FirstTry, PollEvent::Tried) => PollPhase::Finished,
            (PollPhase::Register, PollEvent::Registered(done)) => if done {
                PollPhase::Try
            } else {
                PollPhase::NotRegistered
            },
            (PollPhase::Try, PollEvent::TryAgain) => PollPhase::Wait,
            (PollPhase::Try, PollEvent::Tried) => PollPhase::Finished,
            (PollPhase::Wait, PollEvent::Notified) => {
                self.ready = false;
                PollPhase::Try
            },
            (PollPhase::Wait, PollEvent::WaitFailed(error)) => PollPhase::WaitFailed { error },
            _ => self.phase,
        };
        self.phase = phase;
    }
}

/// The operation is tried again after the observer has been registered and before it is waited
/// for, so that an event between the first try and the registration is not missed.
pub proof fn lemma_events_are_not_missed(nonblock: bool, phase: PollPhase, event: PollEvent)
    requires
        poll_after(nonblock, phase, event) is Wait,
        !(phase is Wait),
    ensures
        phase is Try && event is TryAgain,
        poll_after(nonblock, PollPhase::Register, PollEvent::Registered(true)) is Try,
{
}

/// Without blocking, no observer is registered and nothing is waited for.
pub proof fn lemma_nonblock_does_not_register(event: PollEvent)
    ensures
        event is TryAgain || event is Tried ==> poll_after(true, PollPhase::FirstTry, event)
            is Finished,
{
}

} // verus!
