//! A word that threads block on, and are woken from one by one.
//!
//! Besides the word that is shown to the outside world, there is a second one, which says how many
//! waiters the waker of the moment wants to wake. Its two uppermost bits are set while there is a
//! waker. A thread that was blocked goes on only once it has counted that word down, so that
//! spurious wake-ups do not show.
use vstd::prelude::*;

verus! {

/// The two bits that are set while there is a waker.
pub const LOCK_BITS: u32 = 0xc000_0000;

/// One of the two bits.
pub const LOCK_BIT: u32 = 0x8000_0000;

/// The part of the word that counts, and the most waiters that are woken at once.
pub const COUNT_MASK: u32 = 0x3fff_ffff;

/// How many waiters are still to be woken.
pub open spec fn count_of(word: u32) -> u32 {
    word & COUNT_MASK
}

/// Whether there is a waker.
pub open spec fn has_waker(word: u32) -> bool {
    word & LOCK_BIT != 0
}

/// The word of a waker that wants to wake some waiters.
pub open spec fn waker_word(n: u32) -> u32 {
    n | LOCK_BITS
}

/// The word after a waiter has gone on, if it may.
pub open spec fn claimed(word: u32) -> Option<u32> {
    if has_waker(word) && count_of(word) > 0 {
        Some((word - 1) as u32)
    } else {
        None
    }
}

/// The word after a waiter has gone on, if it may: if there is a waker, which has not woken as many
/// as it wants to.
pub fn claim_wakeup(word: u32) -> (r: Option<u32>)
    ensures
        r == claimed(word),
{
    if word & LOCK_BIT == 0 {
        // No waker in play, do nothing to the value
        None
    } else if word & COUNT_MASK > 0 {
        // There is a waker, and there is still capacity to wake up
        assert(word & 0x3fff_ffff > 0 ==> word > 0) by (bit_vector);
        Some(word - 1)
    } else {
        // There is a waker, but capacity is gone
        None
    }
}

/// The word after a waker has finished, if it may finish.
pub open spec fn finished(word: u32, remain: u32) -> Option<u32> {
    if count_of(word) <= remain {
        Some(0u32)
    } else {
        None
    }
}

/// The word after a waker has finished, if it may finish: if no more waiters are to go on than
/// could not be woken.
pub fn finish_waking(word: u32, remain: u32) -> (r: Option<u32>)
    ensures
        r == finished(word, remain),
{
    if word & COUNT_MASK <= remain {
        Some(0)
    } else {
        None
    }
}

/// A waiter that goes on leaves the bits of the waker alone and counts down by one: no more waiters
/// go on than the waker wanted.
pub proof fn lemma_claim_counts_down(word: u32)
    requires
        claimed(word) is Some,
    ensures
        count_of(claimed(word)->Some_0) == count_of(word) - 1,
        claimed(word)->Some_0 & LOCK_BITS == word & LOCK_BITS,
{
    assert(word & 0x3fff_ffff > 0 ==> word > 0 && ((word - 1) as u32) & 0x3fff_ffff == (word
        & 0x3fff_ffff) - 1 && ((word - 1) as u32) & 0xc000_0000 == word & 0xc000_0000)
        by (bit_vector);
}

/// The word of a waker says how many it wants to wake.
pub proof fn lemma_waker_word(n: u32)
    requires
        n <= COUNT_MASK,
    ensures
        count_of(waker_word(n)) == n,
        has_waker(waker_word(n)),
        waker_word(n) & LOCK_BITS == LOCK_BITS,
{
    assert(n <= 0x3fff_ffff ==> (n | 0xc000_0000) & 0x3fff_ffff == n && (n | 0xc000_0000)
        & 0x8000_0000 != 0 && (n | 0xc000_0000) & 0xc000_0000 == 0xc000_0000) by (bit_vector);
}

/// Without a waker nobody goes on, nor does anybody once the waker has woken as many as it wants to.
pub proof fn lemma_no_spurious_wakeup(word: u32)
    requires
        !has_waker(word) || count_of(word) == 0,
    ensures
        claimed(word) is None,
{
}

/// What came of blocking.
#[derive(Clone, Copy, Debug, PartialEq, Eq, Structural)]
pub enum BlockOutcome {
    /// The word had changed already.
    ImmediatelyWokenUp,
    Unblocked,
    TimedOut,
}

/// What a thread that blocks is to do. Times are in nanoseconds.
#[derive(Clone, Copy, Debug, PartialEq, Eq, Structural)]
pub enum BlockPhase {
    /// Read the word that is shown to the outside world.
    ReadWord,
    /// See how much time has passed.
    ReadClock,
    /// Wait on the second word while it is zero, for so long at most.
    Wait { timeout: Option<u64> },
    /// Read the word again: a wake-up was in progress already.
    ReadWordAgain,
    /// Count the second word down, if [`claim_wakeup`] says so.
    Claim,
    Finished { outcome: BlockOutcome },
}

/// What a thread that blocks has found.
#[derive(Clone, Copy, Debug, PartialEq, Eq, Structural)]
pub enum BlockEvent {
    Word(u32),
    /// The time since the beginning.
    Elapsed(u64),
    /// The wait has ended for some reason, or for none.
    Returned,
    /// The second word was not zero.
    NotZero,
    TimedOut,
    /// Whether the second word was counted down.
    Claimed(bool),
}

/// How a thread that blocks goes on, and whether it has not been woken spuriously yet.
pub open spec fn block_after(
    expected: u32,
    timeout: Option<u64>,
    first_time: bool,
    phase: BlockPhase,
    event: BlockEvent,
) -> (bool, BlockPhase) {
    let wait = if timeout is Some {
        BlockPhase::ReadClock
    } else {
        BlockPhase::Wait { timeout: None }
    };
    match (phase, event) {
        (BlockPhase::ReadWord, BlockEvent::Word(word)) => (
            first_time,
            if word != expected {
                BlockPhase::Finished { outcome: BlockOutcome::ImmediatelyWokenUp }
            } else {
                wait
            },
        ),
        (BlockPhase::ReadClock, BlockEvent::Elapsed(elapsed)) => (
            first_time,
            if timeout is Some && elapsed > timeout->Some_0 {
                BlockPhase::Finished { outcome: BlockOutcome::TimedOut }
            } else if timeout is Some {
                BlockPhase::Wait { timeout: Some((timeout->Some_0 - elapsed) as u64) }
            } else {
                BlockPhase::Wait { timeout: None }
            },
        ),
        (BlockPhase::Wait { .. }, BlockEvent::Returned) => (first_time, BlockPhase::Claim),
        (BlockPhase::Wait { .. }, BlockEvent::NotZero) => (
            first_time,
            if first_time {
                BlockPhase::ReadWordAgain
            } else {
                BlockPhase::Claim
            },
        ),
        (BlockPhase::Wait { .. }, BlockEvent::TimedOut) => (
            first_time,
            BlockPhase::Finished { outcome: BlockOutcome::TimedOut },
        ),
        (BlockPhase::ReadWordAgain, BlockEvent::Word(word)) => (
            first_time,
            if word != expected {
                BlockPhase::Finished { outcome: BlockOutcome::ImmediatelyWokenUp }
            } else {
                BlockPhase::Claim
            },
        ),
        (BlockPhase::Claim, BlockEvent::Claimed(claimed)) => if claimed {
            (first_time, BlockPhase::Finished { outcome: BlockOutcome::Unblocked })
        } else {
            (false, wait)
        },
        _ => (first_time, phase),
    }
}

/// A thread that blocks while a word is an expected one.
#[derive(Clone, Copy, Debug, PartialEq, Eq, Structural)]
pub struct BlockLoop {
    expected: u32,
    timeout: Option<u64>,
    first_time: bool,
    phase: BlockPhase,
}

impl BlockLoop {
    /// The word that is expected.
    pub closed spec fn expected(&self) -> u32 {
        self.expected
    }

    /// How long the thread blocks at most.
    pub closed spec fn timeout(&self) -> Option<u64> {
        self.timeout
    }

    /// Whether the thread has not been woken spuriously yet.
    pub closed spec fn is_first_time(&self) -> bool {
        self.first_time
    }

    /// What is to be done.
    pub closed spec fn phase(&self) -> BlockPhase {
        self.phase
    }

    /// Begin to block.
    pub fn new(expected: u32, timeout: Option<u64>) -> (r: Self)
        ensures
            r.expected() == expected,
            r.timeout() == timeout,
            r.is_first_time(),
            r.phase() == BlockPhase::ReadWord,
    {
        BlockLoop { expected, timeout, first_time: true, phase: BlockPhase::ReadWord }
    }

    /// What is to be done.
    pub fn action(&self) -> (r: BlockPhase)
        ensures
            r == self.phase(),
    {
        self.phase
    }

    /// Go on with what was found.
    pub fn next(&mut self, event: BlockEvent)
        ensures
            final(self).expected() == old(self).expected(),
            final(self).timeout() == old(self).timeout(),
            (final(self).is_first_time(), final(self).phase()) == block_after(
                old(self).expected(),
                old(self).timeout(),
                old(self).is_first_time(),
                old(self).phase(),
                event,
            ),
    {
        let wait = if self.timeout.is_some() {
            BlockPhase::ReadClock
        } else {
            BlockPhase::Wait { timeout: None }
        };
        match (self.phase, event) {
            (BlockPhase::ReadWord, BlockEvent::Word(word)) => {
                self.phase = if word != self.expected {
                    BlockPhase::Finished { outcome: BlockOutcome::ImmediatelyWokenUp }
                } else {
                    wait
                };
            },
            (BlockPhase::ReadClock, BlockEvent::Elapsed(elapsed)) => {
                self.phase = match self.timeout {
                    Some(timeout) => if elapsed > timeout {
                        BlockPhase::Finished { outcome: BlockOutcome::TimedOut }
                    } else {
                        BlockPhase::Wait { timeout: Some(timeout - elapsed) }
                    },
                    None => BlockPhase::Wait { timeout: None },
                };
            },
            (BlockPhase::Wait { .. }, BlockEvent::Returned) => {
                self.phase = BlockPhase::Claim;
            },
            (BlockPhase::Wait { .. }, BlockEvent::NotZero) => {
                self.phase = if self.first_time {
                    BlockPhase::ReadWordAgain
                } else {
                    BlockPhase::Claim
                };
            },
            (BlockPhase::Wait { .. }, BlockEvent::TimedOut) => {
                self.phase = BlockPhase::Finished { outcome: BlockOutcome::TimedOut };
            },
            (BlockPhase::ReadWordAgain, BlockEvent::Word(word)) => {
                self.phase = if word != self.expected {
                    BlockPhase::Finished { outcome: BlockOutcome::ImmediatelyWokenUp }
                } else {
                    BlockPhase::Claim
                };
            },
            (BlockPhase::Claim, BlockEvent::Claimed(claimed)) => {
                if claimed {
                    self.phase = BlockPhase::Finished { outcome: BlockOutcome::Unblocked };
                } else {
                    // We have not yet been asked to wake up, this is spurious.
                    self.first_time = false;
                    self.phase = wait;
                }
            },
            _ => {},
        }
    }
}

/// A thread is unblocked only after it has counted the second word down.
pub proof fn lemma_unblocked_means_claimed(
    expected: u32,
    timeout: Option<u64>,
    first_time: bool,
    phase: BlockPhase,
    event: BlockEvent,
)
    requires
        !(phase is Finished),
        block_after(expected, timeout, first_time, phase, event).1 == (BlockPhase::Finished {
            outcome: BlockOutcome::Unblocked,
        }),
    ensures
        phase is Claim && event == BlockEvent::Claimed(true),
{
}

/// What a thread that wakes others is to do.
#[derive(Clone, Copy, Debug, PartialEq, Eq, Structural)]
pub enum WakePhase {
    /// Move all waiters to a queue of their own, so that anyone else showing up to block is not
    /// going to be impacted.
    Requeue,
    /// Replace the second word by this one, if it is zero; else somebody else is waking.
    Lock { word: u32 },
    /// Wake so many of the queue, and move the others back.
    Wake { n: u32 },
    /// Set the second word to zero, if [`finish_waking`] says so.
    Unlock { remain: u32, woken: u32 },
    Finished { woken: u32 },
}

/// What a thread that wakes others has found.
#[derive(Clone, Copy, Debug, PartialEq, Eq, Structural)]
pub enum WakeEvent {
    Requeued,
    /// Whether the second word was replaced.
    Exchanged(bool),
    /// How many waiters were woken or moved back.
    WokenOrRequeued(u32),
}

/// How many waiters are woken at most.
pub open spec fn wake_limit(n: usize) -> u32 {
    if n < COUNT_MASK {
        n as u32
    } else {
        COUNT_MASK
    }
}

/// How a thread that wakes others goes on.
pub open spec fn wake_after(n: u32, phase: WakePhase, event: WakeEvent) -> WakePhase {
    match (phase, event) {
        (WakePhase::Requeue, WakeEvent::Requeued) => WakePhase::Lock { word: waker_word(n) },
        (WakePhase::Lock { .. }, WakeEvent::Exchanged(true)) => WakePhase::Wake { n },
        (WakePhase::Wake { .. }, WakeEvent::WokenOrRequeued(m)) => {
            let woken = if n < m {
                n
            } else {
                m
            };
            WakePhase::Unlock { remain: (n - woken) as u32, woken }
        },
        (WakePhase::Unlock { woken, .. }, WakeEvent::Exchanged(true)) => WakePhase::Finished {
            woken,
        },
        _ => phase,
    }
}

/// A thread that wakes others.
#[derive(Clone, Copy, Debug, PartialEq, Eq, Structural)]
pub struct WakeLoop {
    n: u32,
    phase: WakePhase,
}

impl WakeLoop {
    /// How many waiters are woken at most.
    pub closed spec fn limit(&self) -> u32 {
        self.n
    }

    /// What is to be done.
    pub closed spec fn phase(&self) -> WakePhase {
        self.phase
    }

    /// Begin to wake some waiters.
    pub fn new(n: usize) -> (r: Self)
        requires
            0 < n <= u32::MAX,
        ensures
            r.limit() == wake_limit(n),
            r.phase() == WakePhase::Requeue,
    {
        let n: u32 = if n < COUNT_MASK as usize {
            n as u32
        } else {
            COUNT_MASK
        };
        WakeLoop { n, phase: WakePhase::Requeue }
    }

    /// What is to be done.
    pub fn action(&self) -> (r: WakePhase)
        ensures
            r == self.phase(),
    {
        self.phase
    }

    /// Go on with what was found.
    pub fn next(&mut self, event: WakeEvent)
        ensures
            final(self).limit() == old(self).limit(),
            final(self).phase() == wake_after(old(self).limit(), old(self).phase(), event),
    {
        match (self.phase, event) {
            (WakePhase::Requeue, WakeEvent::Requeued) => {
                self.phase = WakePhase::Lock { word: self.n | LOCK_BITS };
            },
            (WakePhase::Lock { .. }, WakeEvent::Exchanged(true)) => {
                self.phase = WakePhase::Wake { n: self.n };
            },
            (WakePhase::Wake { .. }, WakeEvent::WokenOrRequeued(m)) => {
                let woken: u32 = if self.n < m {
                    self.n
                } else {
                    m
                };
                self.phase = WakePhase::Unlock { remain: self.n - woken, woken };
            },
            (WakePhase::Unlock { woken, .. }, WakeEvent::Exchanged(true)) => {
                self.phase = WakePhase::Finished { woken };
            },
            _ => {},
        }
    }
}

/// No more waiters are woken than were to be; the waker finishes once at most as many may still go
/// on as could not be woken.
pub proof fn lemma_wake_is_limited(n: u32, m: u32)
    ensures
        ({
            let phase = wake_after(n, WakePhase::Wake { n }, WakeEvent::WokenOrRequeued(m));
            &&& phase is Unlock
            &&& phase->Unlock_woken <= n
            &&& phase->Unlock_remain + phase->Unlock_woken == n
        }),
{
}

} // verus!
