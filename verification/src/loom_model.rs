//! Models of platform synchronization primitives.
//!
//! These types are intended for tests. They model platform behavior, but they are not production
//! platform implementations.
use crate::net::ring::smaller;
use vstd::prelude::*;

verus! {

/// The word was not the expected one, so the thread was not blocked.
#[derive(Clone, Copy, Debug, PartialEq, Eq, Structural)]
pub struct ImmediatelyWokenUp;

/// What ended a wait with a timeout.
#[derive(Clone, Copy, Debug, PartialEq, Eq, Structural)]
pub enum UnblockedOrTimedOut {
    Unblocked,
    TimedOut,
}

/// A model of a futex word and its wait queue.
///
/// `block` models `FUTEX_WAIT`: it checks whether the word still equals the expected value and only
/// then queues the thread. `wake_many` selects waiters from the same queue, so a wake cannot be
/// lost between the value check and the wait operation.
#[derive(Debug)]
pub struct LoomFutex {
    word: u32,
    waiters: Vec<usize>,
    woken: Vec<usize>,
}

/// The value of a [`LoomFutex`].
#[verifier::ext_equal]
pub struct FutexView {
    pub word: u32,
    /// The threads that are blocked, the one that has waited longest first.
    pub waiters: Seq<usize>,
    /// The threads that have been woken, in order.
    pub woken: Seq<usize>,
}

impl View for LoomFutex {
    type V = FutexView;

    closed spec fn view(&self) -> FutexView {
        FutexView { word: self.word, waiters: self.waiters@, woken: self.woken@ }
    }
}

impl FutexView {
    /// The futex after its first `n` waiters have been woken.
    pub open spec fn after_wake(self, n: int) -> FutexView {
        FutexView {
            waiters: self.waiters.skip(n),
            woken: self.woken + self.waiters.take(n),
            ..self
        }
    }
}

impl LoomFutex {
    /// Creates a new futex model with the given initial word value.
    pub fn new(value: u32) -> (r: Self)
        ensures
            r@ == (FutexView { word: value, waiters: Seq::empty(), woken: Seq::empty() }),
    {
        let r = LoomFutex { word: value, waiters: Vec::new(), woken: Vec::new() };
        assert(r@ =~= (FutexView { word: value, waiters: Seq::empty(), woken: Seq::empty() }));
        r
    }

    /// Returns the modeled futex word.
    pub fn word(&self) -> (r: u32)
        ensures
            r == self@.word,
    {
        self.word
    }

    /// Changes the modeled futex word.
    pub fn store(&mut self, value: u32)
        ensures
            final(self)@ == (FutexView { word: value, ..old(self)@ }),
    {
        self.word = value;
    }

    /// Whether a thread has been woken.
    pub fn is_woken(&self, thread: usize) -> (r: bool)
        ensures
            r == self@.woken.contains(thread),
    {
        let mut k: usize = 0;
        while k < self.woken.len()
            invariant
                k <= self.woken.len(),
                forall|j: int| 0 <= j < k ==> self.woken@[j] != thread,
            decreases self.woken.len() - k,
        {
            if self.woken[k] == thread {
                return true;
            }
            k = k + 1;
        }
        false
    }

    /// The number of threads that are blocked.
    pub fn num_waiters(&self) -> (r: usize)
        ensures
            r == self@.waiters.len(),
    {
        self.waiters.len()
    }

    /// Wakes up to `n` waiters blocked on this futex.
    ///
    /// The returned value is the number of waiters selected for wakeup. This mirrors futex
    /// semantics: selected waiters are no longer eligible for a second wake, even if they have not
    /// yet resumed execution.
    pub fn wake_many(&mut self, n: usize) -> (r: usize)
        ensures
            r == smaller(old(self)@.waiters.len(), n as nat),
            final(self)@ == old(self)@.after_wake(r as int),
    {
        let ghost before = self@;
        let to_wake: usize = if self.waiters.len() < n {
            self.waiters.len()
        } else {
            n
        };
        let mut left: Vec<usize> = Vec::new();
        let mut k: usize = 0;
        while k < self.waiters.len()
            invariant
                k <= self.waiters.len(),
                to_wake <= self.waiters.len(),
                self.word == before.word,
                self.waiters@ == before.waiters,
                self.woken@ =~= before.woken + before.waiters.take(
                    if k < to_wake {
                        k as int
                    } else {
                        to_wake as int
                    },
                ),
                left@ =~= if k < to_wake {
                    Seq::empty()
                } else {
                    before.waiters.subrange(to_wake as int, k as int)
                },
            decreases self.waiters.len() - k,
        {
            let thread: usize = self.waiters[k];
            if k < to_wake {
                self.woken.push(thread);
            } else {
                left.push(thread);
            }
            k = k + 1;
        }
        self.waiters = left;
        assert(self@ =~= before.after_wake(to_wake as int));
        to_wake
    }

    /// Wakes one waiter blocked on this futex.
    pub fn wake_one(&mut self) -> (r: bool)
        ensures
            r == (old(self)@.waiters.len() > 0),
            final(self)@ == old(self)@.after_wake(
                if r {
                    1
                } else {
                    0
                },
            ),
    {
        self.wake_many(1) > 0
    }

    /// Wakes all currently eligible waiters blocked on this futex.
    pub fn wake_all(&mut self) -> (r: usize)
        ensures
            r == old(self)@.waiters.len(),
            final(self)@ == old(self)@.after_wake(r as int),
    {
        let all: usize = self.waiters.len();
        self.wake_many(all)
    }

    /// Blocks a thread if the futex word is still equal to `expected`.
    ///
    /// A wake does not imply that the futex word has changed; callers must re-check their own
    /// synchronization state, just as they would around a real futex wait.
    pub fn block(&mut self, expected: u32, thread: usize) -> (r: Result<(), ImmediatelyWokenUp>)
        ensures
            r is Ok <==> old(self)@.word == expected,
            final(self)@ == if r is Ok {
                FutexView { waiters: old(self)@.waiters.push(thread), ..old(self)@ }
            } else {
                old(self)@
            },
    {
        if self.word != expected {
            return Err(ImmediatelyWokenUp);
        }
        let ghost before = self@;
        self.waiters.push(thread);
        assert(self@ =~= (FutexView { waiters: before.waiters.push(thread), ..before }));
        Ok(())
    }

    /// Blocks like [`Self::block`]. Timeouts are not modeled, so this never produces `TimedOut`.
    pub fn block_or_timeout(&mut self, expected: u32, thread: usize) -> (r: Result<
        UnblockedOrTimedOut,
        ImmediatelyWokenUp,
    >)
        ensures
            r is Ok <==> old(self)@.word == expected,
            r is Ok ==> r->Ok_0 == UnblockedOrTimedOut::Unblocked,
            final(self)@ == if r is Ok {
                FutexView { waiters: old(self)@.waiters.push(thread), ..old(self)@ }
            } else {
                old(self)@
            },
    {
        match self.block(expected, thread) {
            Ok(()) => Ok(UnblockedOrTimedOut::Unblocked),
            Err(e) => Err(e),
        }
    }
}

/// No waiter is lost or passed over: a wake wakes those that have waited longest, and the others
/// go on waiting in their order.
pub proof fn lemma_no_lost_wakeup(v: FutexView, n: int, i: int)
    requires
        0 <= n <= v.waiters.len(),
        0 <= i < v.waiters.len(),
    ensures
        i < n ==> v.after_wake(n).woken.contains(v.waiters[i]),
        i >= n ==> v.after_wake(n).waiters[i - n] == v.waiters[i],
        v.after_wake(n).waiters.len() == v.waiters.len() - n,
{
    if i < n {
        assert(v.after_wake(n).woken[v.woken.len() + i] == v.waiters[i]);
    }
}

/// A point in time, in milliseconds.
#[derive(Clone, Copy, Debug, PartialEq, Eq, Structural)]
pub struct LoomInstant {
    time: u64,
}

impl LoomInstant {
    /// The milliseconds.
    pub closed spec fn millis(&self) -> u64 {
        self.time
    }

    /// The point in time after some milliseconds.
    pub fn from_millis(time: u64) -> (r: Self)
        ensures
            r.millis() == time,
    {
        LoomInstant { time }
    }

    /// The milliseconds since an earlier point in time, unless it is a later one.
    pub fn checked_duration_since(&self, earlier: &Self) -> (r: Option<u64>)
        ensures
            r == if earlier.millis() <= self.millis() {
                Some((self.millis() - earlier.millis()) as u64)
            } else {
                None
            },
    {
        if earlier.time <= self.time {
            Some(self.time - earlier.time)
        } else {
            None
        }
    }

    /// The point in time some milliseconds later, unless there is none.
    pub fn checked_add(&self, millis: u128) -> (r: Option<Self>)
        ensures
            r is Some <==> self.millis() + millis <= u64::MAX,
            r is Some ==> r->Some_0.millis() == self.millis() + millis,
    {
        if millis > u64::MAX as u128 {
            return None;
        }
        let millis: u64 = millis as u64;
        if millis <= u64::MAX - self.time {
            Some(LoomInstant { time: self.time + millis })
        } else {
            None
        }
    }
}

/// A time of day, in milliseconds.
#[derive(Clone, Copy, Debug, PartialEq, Eq, Structural)]
pub struct LoomSystemTime {
    time: u64,
}

impl LoomSystemTime {
    /// The milliseconds.
    pub closed spec fn millis(&self) -> u64 {
        self.time
    }

    /// The beginning of time.
    pub fn unix_epoch() -> (r: Self)
        ensures
            r.millis() == 0,
    {
        LoomSystemTime { time: 0 }
    }

    /// The time between two times: an error where `earlier` is the later one.
    pub fn duration_since(&self, earlier: &Self) -> (r: Result<u64, u64>)
        ensures
            r == if self.millis() < earlier.millis() {
                Err((earlier.millis() - self.millis()) as u64)
            } else {
                Ok((self.millis() - earlier.millis()) as u64)
            },
    {
        if self.time < earlier.time {
            Err(earlier.time - self.time)
        } else {
            Ok(self.time - earlier.time)
        }
    }
}

/// A minimal platform for tests. Its clock goes on by a millisecond whenever it is read.
#[derive(Debug)]
pub struct LoomPlatform {
    current_time: u64,
}

impl LoomPlatform {
    /// What the clock shows.
    pub closed spec fn clock(&self) -> u64 {
        self.current_time
    }

    /// Creates a new platform model.
    pub fn new() -> (r: Self)
        ensures
            r.clock() == 0,
    {
        LoomPlatform { current_time: 0 }
    }

    /// What time it is.
    pub fn now(&mut self) -> (r: LoomInstant)
        ensures
            r.millis() == old(self).clock(),
            final(self).clock() == if old(self).clock() < u64::MAX {
                (old(self).clock() + 1) as u64
            } else {
                0
            },
    {
        let time: u64 = self.current_time;
        self.current_time = time.wrapping_add(1);
        LoomInstant { time }
    }

    /// What time of day it is.
    pub fn current_time(&self) -> (r: LoomSystemTime)
        ensures
            r.millis() == self.clock(),
    {
        LoomSystemTime { time: self.current_time }
    }
}

impl Default for LoomPlatform {
    fn default() -> (r: Self)
        ensures
            r.clock() == 0,
    {
        Self::new()
    }
}

} // verus!
