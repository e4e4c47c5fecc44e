//! A reader-writer lock.
//!
//! This type of lock allows a number of readers or at most one writer at any point in time. All of
//! its state is in two words. This module says how the words change; whoever drives it performs
//! the changes atomically, and blocks and wakes threads.
use vstd::prelude::*;

verus! {

/// One reader.
pub const READ_LOCKED: u32 = 1;

/// The part of the state that counts readers.
pub const MASK: u32 = 0x3fff_ffff;

/// The count that stands for a writer.
pub const WRITE_LOCKED: u32 = 0x3fff_ffff;

/// The largest number of readers.
pub const MAX_READERS: u32 = 0x3fff_fffe;

/// Readers are waiting.
pub const READERS_WAITING: u32 = 0x4000_0000;

/// Writers are waiting.
pub const WRITERS_WAITING: u32 = 0x8000_0000;

/// The number of readers, or [`WRITE_LOCKED`].
pub open spec fn holders(state: u32) -> u32 {
    state & MASK
}

/// Whether readers are waiting.
pub open spec fn readers_wait(state: u32) -> bool {
    state & READERS_WAITING != 0
}

/// Whether writers are waiting.
pub open spec fn writers_wait(state: u32) -> bool {
    state & WRITERS_WAITING != 0
}

/// Whether a reader may lock. Readers wait for those that wait already.
pub open spec fn may_read_lock(state: u32) -> bool {
    holders(state) < MAX_READERS && !readers_wait(state) && !writers_wait(state)
}

pub fn is_unlocked(state: u32) -> (r: bool)
    ensures
        r == (holders(state) == 0),
{
    state & MASK == 0
}

pub fn is_write_locked(state: u32) -> (r: bool)
    ensures
        r == (holders(state) == WRITE_LOCKED),
{
    state & MASK == WRITE_LOCKED
}

pub fn has_readers_waiting(state: u32) -> (r: bool)
    ensures
        r == readers_wait(state),
{
    state & READERS_WAITING != 0
}

pub fn has_writers_waiting(state: u32) -> (r: bool)
    ensures
        r == writers_wait(state),
{
    state & WRITERS_WAITING != 0
}

pub fn is_read_lockable(state: u32) -> (r: bool)
    ensures
        r == may_read_lock(state),
{
    state & MASK < MAX_READERS && !has_readers_waiting(state) && !has_writers_waiting(state)
}

pub fn has_reached_max_readers(state: u32) -> (r: bool)
    ensures
        r == (holders(state) == MAX_READERS),
{
    state & MASK == MAX_READERS
}

/// How the parts of a state change with the state.
pub(crate) proof fn lemma_parts(state: u32)
    ensures
        holders(state) < WRITE_LOCKED ==> state < u32::MAX && holders((state + 1) as u32) == holders(
            state,
        ) + 1 && readers_wait((state + 1) as u32) == readers_wait(state) && writers_wait(
            (state + 1) as u32,
        ) == writers_wait(state),
        holders(state) > 0 ==> state > 0 && holders((state - 1) as u32) == holders(state) - 1
            && readers_wait((state - 1) as u32) == readers_wait(state) && writers_wait(
            (state - 1) as u32,
        ) == writers_wait(state),
        holders(state) == 0 ==> state <= 0xc000_0000 && holders((state + WRITE_LOCKED) as u32)
            == WRITE_LOCKED && readers_wait((state + WRITE_LOCKED) as u32) == readers_wait(state)
            && writers_wait((state + WRITE_LOCKED) as u32) == writers_wait(state),
        holders(state) == WRITE_LOCKED ==> state >= WRITE_LOCKED && holders(
            (state - WRITE_LOCKED) as u32,
        ) == 0 && readers_wait((state - WRITE_LOCKED) as u32) == readers_wait(state)
            && writers_wait((state - WRITE_LOCKED) as u32) == writers_wait(state),
        holders(state | READERS_WAITING) == holders(state),
        readers_wait(state | READERS_WAITING),
        writers_wait(state | READERS_WAITING) == writers_wait(state),
        holders(state | WRITERS_WAITING) == holders(state),
        writers_wait(state | WRITERS_WAITING),
        readers_wait(state | WRITERS_WAITING) == readers_wait(state),
        holders(state | WRITE_LOCKED) == WRITE_LOCKED,
        readers_wait(state | WRITE_LOCKED) == readers_wait(state),
        writers_wait(state | WRITE_LOCKED) == writers_wait(state),
        holders(0) == 0 && !readers_wait(0) && !writers_wait(0),
        holders(READERS_WAITING) == 0 && readers_wait(READERS_WAITING) && !writers_wait(
            READERS_WAITING,
        ),
        holders(WRITERS_WAITING) == 0 && !readers_wait(WRITERS_WAITING) && writers_wait(
            WRITERS_WAITING,
        ),
        holders(0xc000_0000) == 0 && readers_wait(0xc000_0000) && writers_wait(0xc000_0000),
        holders(state) == 0 && !readers_wait(state) && !writers_wait(state) ==> state == 0,
        holders(state) == 0 && readers_wait(state) && !writers_wait(state) ==> state
            == READERS_WAITING,
        holders(state) == 0 && !readers_wait(state) && writers_wait(state) ==> state
            == WRITERS_WAITING,
        holders(state) == 0 && readers_wait(state) && writers_wait(state) ==> state == 0xc000_0000,
{
    assert(state & 0x3fff_ffff < 0x3fff_ffff ==> state < 0xffff_ffff && ((state + 1) as u32)
        & 0x3fff_ffff == (state & 0x3fff_ffff) + 1 && ((state + 1) as u32) & 0x4000_0000 == state
        & 0x4000_0000 && ((state + 1) as u32) & 0x8000_0000 == state & 0x8000_0000) by (bit_vector);
    assert(state & 0x3fff_ffff > 0 ==> state > 0 && ((state - 1) as u32) & 0x3fff_ffff == (state
        & 0x3fff_ffff) - 1 && ((state - 1) as u32) & 0x4000_0000 == state & 0x4000_0000 && ((state
        - 1) as u32) & 0x8000_0000 == state & 0x8000_0000) by (bit_vector);
    assert(state & 0x3fff_ffff == 0 ==> state <= 0xc000_0000 && ((state + 0x3fff_ffff) as u32)
        & 0x3fff_ffff == 0x3fff_ffff && ((state + 0x3fff_ffff) as u32) & 0x4000_0000 == state
        & 0x4000_0000 && ((state + 0x3fff_ffff) as u32) & 0x8000_0000 == state & 0x8000_0000)
        by (bit_vector);
    assert(state & 0x3fff_ffff == 0x3fff_ffff ==> state >= 0x3fff_ffff && ((state
        - 0x3fff_ffff) as u32) & 0x3fff_ffff == 0 && ((state - 0x3fff_ffff) as u32) & 0x4000_0000
        == state & 0x4000_0000 && ((state - 0x3fff_ffff) as u32) & 0x8000_0000 == state
        & 0x8000_0000) by (bit_vector);
    assert((state | 0x4000_0000) & 0x3fff_ffff == state & 0x3fff_ffff && (state | 0x4000_0000)
        & 0x4000_0000 != 0 && (state | 0x4000_0000) & 0x8000_0000 == state & 0x8000_0000
        && (state | 0x8000_0000) & 0x3fff_ffff == state & 0x3fff_ffff && (state | 0x8000_0000)
        & 0x8000_0000 != 0 && (state | 0x8000_0000) & 0x4000_0000 == state & 0x4000_0000
        && (state | 0x3fff_ffff) & 0x3fff_ffff == 0x3fff_ffff && (state | 0x3fff_ffff)
        & 0x4000_0000 == state & 0x4000_0000 && (state | 0x3fff_ffff) & 0x8000_0000 == state
        & 0x8000_0000) by (bit_vector);
    assert(0u32 & 0x3fff_ffff == 0 && 0u32 & 0x4000_0000 == 0 && 0u32 & 0x8000_0000 == 0
        && 0x4000_0000u32 & 0x3fff_ffff == 0 && 0x4000_0000u32 & 0x4000_0000 != 0 && 0x4000_0000u32
        & 0x8000_0000 == 0 && 0x8000_0000u32 & 0x3fff_ffff == 0 && 0x8000_0000u32 & 0x4000_0000 == 0
        && 0x8000_0000u32 & 0x8000_0000 != 0 && 0xc000_0000u32 & 0x3fff_ffff == 0 && 0xc000_0000u32
        & 0x4000_0000 != 0 && 0xc000_0000u32 & 0x8000_0000 != 0) by (bit_vector);
    assert(state & 0x3fff_ffff == 0 && state & 0x4000_0000 == 0 && state & 0x8000_0000 == 0 ==> state
        == 0) by (bit_vector);
    assert(state & 0x3fff_ffff == 0 && state & 0x4000_0000 != 0 && state & 0x8000_0000 == 0 ==> state
        == 0x4000_0000) by (bit_vector);
    assert(state & 0x3fff_ffff == 0 && state & 0x4000_0000 == 0 && state & 0x8000_0000 != 0 ==> state
        == 0x8000_0000) by (bit_vector);
    assert(state & 0x3fff_ffff == 0 && state & 0x4000_0000 != 0 && state & 0x8000_0000 != 0 ==> state
        == 0xc000_0000) by (bit_vector);
}

/// How often a thread looks at the state before it blocks.
pub const SPIN: u32 = 100;

/// What a thread that acquires or releases the lock is to do next.
#[derive(Clone, Copy, Debug, PartialEq, Eq, Structural)]
pub enum LockAction {
    /// Read the state.
    Load,
    /// Replace the state, if it is the expected one. A weak exchange may fail for no reason.
    Exchange { expected: u32, new: u32, weak: bool },
    /// Block while the state is the expected one.
    Block { expected: u32 },
    /// Read the notification counter of writers.
    LoadNotify,
    /// Block while the notification counter of writers is the expected one.
    BlockNotify { expected: u32 },
    /// Count up the notification counter of writers, and wake one thread that is blocked on it.
    WakeWriter,
    /// Wake all threads that are blocked on the state.
    WakeReaders,
    /// Nothing is left to do.
    Done,
    /// There are too many readers.
    Fail,
}

/// What came of an action.
#[derive(Clone, Copy, Debug, PartialEq, Eq, Structural)]
pub enum LockEvent {
    /// A word was read.
    Loaded(u32),
    /// The state was replaced.
    Exchanged,
    /// The state, which was this, was not replaced.
    NotExchanged(u32),
    /// The thread is no longer blocked.
    Unblocked,
    /// Whether a thread was woken.
    Woken(bool),
}

/// A thread that acquires the lock for reading.
#[derive(Clone, Copy, Debug, PartialEq, Eq, Structural)]
pub enum ReadAcquire {
    /// Looking at the state for the first time.
    Start,
    /// Locking what was unlocked at first sight.
    LockAtOnce { state: u32 },
    /// Looking at the state so many more times.
    Spin { left: u32 },
    /// Locking.
    Lock { state: u32 },
    /// Noting that readers are waiting.
    Mark { state: u32 },
    /// Blocking.
    Block { state: u32 },
    Locked,
    TooManyReaders,
}

impl ReadAcquire {
    /// What to do in a state.
    pub open spec fn decided(state: u32) -> ReadAcquire {
        if may_read_lock(state) {
            ReadAcquire::Lock { state }
        } else if holders(state) == MAX_READERS {
            ReadAcquire::TooManyReaders
        } else if !readers_wait(state) {
            ReadAcquire::Mark { state }
        } else {
            ReadAcquire::Block { state }
        }
    }

    /// What to do in a state.
    fn decide(state: u32) -> (r: ReadAcquire)
        ensures
            r == Self::decided(state),
    {
        if is_read_lockable(state) {
            ReadAcquire::Lock { state }
        } else if has_reached_max_readers(state) {
            ReadAcquire::TooManyReaders
        } else if !has_readers_waiting(state) {
            ReadAcquire::Mark { state }
        } else {
            ReadAcquire::Block { state }
        }
    }

    /// The action of a phase.
    pub open spec fn action_spec(self) -> LockAction {
        match self {
            ReadAcquire::Start => LockAction::Load,
            ReadAcquire::Spin { .. } => LockAction::Load,
            ReadAcquire::LockAtOnce { state } => LockAction::Exchange {
                expected: state,
                new: (state + READ_LOCKED) as u32,
                weak: true,
            },
            ReadAcquire::Lock { state } => LockAction::Exchange {
                expected: state,
                new: (state + READ_LOCKED) as u32,
                weak: true,
            },
            ReadAcquire::Mark { state } => LockAction::Exchange {
                expected: state,
                new: state | READERS_WAITING,
                weak: false,
            },
            ReadAcquire::Block { state } => LockAction::Block {
                expected: state | READERS_WAITING,
            },
            ReadAcquire::Locked => LockAction::Done,
            ReadAcquire::TooManyReaders => LockAction::Fail,
        }
    }

    /// The phase after an event.
    pub open spec fn after(self, event: LockEvent) -> ReadAcquire {
        match (self, event) {
            (ReadAcquire::Start, LockEvent::Loaded(state)) => if may_read_lock(state) {
                ReadAcquire::LockAtOnce { state }
            } else {
                ReadAcquire::Spin { left: SPIN }
            },
            (ReadAcquire::LockAtOnce { .. }, LockEvent::Exchanged) => ReadAcquire::Locked,
            (ReadAcquire::LockAtOnce { .. }, LockEvent::NotExchanged(_)) => ReadAcquire::Spin {
                left: SPIN,
            },
            (ReadAcquire::Spin { left }, LockEvent::Loaded(state)) => if holders(state)
                != WRITE_LOCKED || readers_wait(state) || writers_wait(state) || left == 0 {
                Self::decided(state)
            } else {
                ReadAcquire::Spin { left: (left - 1) as u32 }
            },
            (ReadAcquire::Lock { .. }, LockEvent::Exchanged) => ReadAcquire::Locked,
            (ReadAcquire::Lock { .. }, LockEvent::NotExchanged(state)) => Self::decided(state),
            (ReadAcquire::Mark { state }, LockEvent::Exchanged) => ReadAcquire::Block { state },
            (ReadAcquire::Mark { .. }, LockEvent::NotExchanged(state)) => Self::decided(state),
            (ReadAcquire::Block { .. }, LockEvent::Unblocked) => ReadAcquire::Spin { left: SPIN },
            _ => self,
        }
    }

    /// A lock is only attempted in states in which it may be.
    pub open spec fn wf(self) -> bool {
        match self {
            ReadAcquire::LockAtOnce { state } => may_read_lock(state),
            ReadAcquire::Lock { state } => may_read_lock(state),
            ReadAcquire::Mark { state } => !may_read_lock(state) && holders(state) != MAX_READERS
                && !readers_wait(state),
            _ => true,
        }
    }

    /// What to do next.
    pub fn action(self) -> (r: LockAction)
        requires
            self.wf(),
        ensures
            r == self.action_spec(),
    {
        proof {
            match self {
                ReadAcquire::LockAtOnce { state } => lemma_parts(state),
                ReadAcquire::Lock { state } => lemma_parts(state),
                _ => {},
            }
        }
        match self {
            ReadAcquire::Start => LockAction::Load,
            ReadAcquire::Spin { .. } => LockAction::Load,
            ReadAcquire::LockAtOnce { state } => LockAction::Exchange {
                expected: state,
                new: state + READ_LOCKED,
                weak: true,
            },
            ReadAcquire::Lock { state } => LockAction::Exchange {
                expected: state,
                new: state + READ_LOCKED,
                weak: true,
            },
            ReadAcquire::Mark { state } => LockAction::Exchange {
                expected: state,
                new: state | READERS_WAITING,
                weak: false,
            },
            ReadAcquire::Block { state } => LockAction::Block {
                expected: state | READERS_WAITING,
            },
            ReadAcquire::Locked => LockAction::Done,
            ReadAcquire::TooManyReaders => LockAction::Fail,
        }
    }

    /// Go on after an event.
    pub fn next(self, event: LockEvent) -> (r: ReadAcquire)
        requires
            self.wf(),
        ensures
            r == self.after(event),
            r.wf(),
    {
        match (self, event) {
            (ReadAcquire::Start, LockEvent::Loaded(state)) => if is_read_lockable(state) {
                ReadAcquire::LockAtOnce { state }
            } else {
                ReadAcquire::Spin { left: SPIN }
            },
            (ReadAcquire::LockAtOnce { .. }, LockEvent::Exchanged) => ReadAcquire::Locked,
            (ReadAcquire::LockAtOnce { .. }, LockEvent::NotExchanged(_)) => ReadAcquire::Spin {
                left: SPIN,
            },
            (ReadAcquire::Spin { left }, LockEvent::Loaded(state)) => if !is_write_locked(state)
                || has_readers_waiting(state) || has_writers_waiting(state) || left == 0 {
                Self::decide(state)
            } else {
                ReadAcquire::Spin { left: left - 1 }
            },
            (ReadAcquire::Lock { .. }, LockEvent::Exchanged) => ReadAcquire::Locked,
            (ReadAcquire::Lock { .. }, LockEvent::NotExchanged(state)) => Self::decide(state),
            (ReadAcquire::Mark { state }, LockEvent::Exchanged) => ReadAcquire::Block { state },
            (ReadAcquire::Mark { .. }, LockEvent::NotExchanged(state)) => Self::decide(state),
            (ReadAcquire::Block { .. }, LockEvent::Unblocked) => ReadAcquire::Spin { left: SPIN },
            _ => self,
        }
    }
}

/// A thread that acquires the lock for writing.
#[derive(Clone, Copy, Debug, PartialEq, Eq, Structural)]
pub enum WriteAcquire {
    /// Locking at once, if nobody has the lock or waits for it.
    Start,
    /// Looking at the state so many more times. Once a writer has waited, it takes it that others
    /// wait too.
    Spin { left: u32, waited: bool },
    /// Locking.
    Lock { state: u32, waited: bool },
    /// Noting that writers are waiting.
    Mark { state: u32, waited: bool },
    /// Reading the notification counter.
    LoadNotify,
    /// Looking whether waiting is still necessary.
    Recheck { seq: u32 },
    /// Blocking.
    Block { seq: u32 },
    Locked,
}

impl WriteAcquire {
    /// What to do in a state.
    pub open spec fn decided(state: u32, waited: bool) -> WriteAcquire {
        if holders(state) == 0 {
            WriteAcquire::Lock { state, waited }
        } else if !writers_wait(state) {
            WriteAcquire::Mark { state, waited }
        } else {
            WriteAcquire::LoadNotify
        }
    }

    /// What to do in a state.
    fn decide(state: u32, waited: bool) -> (r: WriteAcquire)
        ensures
            r == Self::decided(state, waited),
    {
        if is_unlocked(state) {
            WriteAcquire::Lock { state, waited }
        } else if !has_writers_waiting(state) {
            WriteAcquire::Mark { state, waited }
        } else {
            WriteAcquire::LoadNotify
        }
    }

    /// The state of a lock that a writer has taken.
    pub open spec fn locked(state: u32, waited: bool) -> u32 {
        if waited {
            state | WRITE_LOCKED | WRITERS_WAITING
        } else {
            state | WRITE_LOCKED
        }
    }

    /// The action of a phase.
    pub open spec fn action_spec(self) -> LockAction {
        match self {
            WriteAcquire::Start => LockAction::Exchange {
                expected: 0,
                new: WRITE_LOCKED,
                weak: true,
            },
            WriteAcquire::Spin { .. } => LockAction::Load,
            WriteAcquire::Lock { state, waited } => LockAction::Exchange {
                expected: state,
                new: Self::locked(state, waited),
                weak: true,
            },
            WriteAcquire::Mark { state, .. } => LockAction::Exchange {
                expected: state,
                new: state | WRITERS_WAITING,
                weak: false,
            },
            WriteAcquire::LoadNotify => LockAction::LoadNotify,
            WriteAcquire::Recheck { .. } => LockAction::Load,
            WriteAcquire::Block { seq } => LockAction::BlockNotify { expected: seq },
            WriteAcquire::Locked => LockAction::Done,
        }
    }

    /// The phase after an event.
    pub open spec fn after(self, event: LockEvent) -> WriteAcquire {
        match (self, event) {
            (WriteAcquire::Start, LockEvent::Exchanged) => WriteAcquire::Locked,
            (WriteAcquire::Start, LockEvent::NotExchanged(_)) => WriteAcquire::Spin {
                left: SPIN,
                waited: false,
            },
            (WriteAcquire::Spin { left, waited }, LockEvent::Loaded(state)) => if holders(state)
                == 0 || writers_wait(state) || left == 0 {
                Self::decided(state, waited)
            } else {
                WriteAcquire::Spin { left: (left - 1) as u32, waited }
            },
            (WriteAcquire::Lock { .. }, LockEvent::Exchanged) => WriteAcquire::Locked,
            (WriteAcquire::Lock { waited, .. }, LockEvent::NotExchanged(state)) => Self::decided(
                state,
                waited,
            ),
            (WriteAcquire::Mark { .. }, LockEvent::Exchanged) => WriteAcquire::LoadNotify,
            (WriteAcquire::Mark { waited, .. }, LockEvent::NotExchanged(state)) => Self::decided(
                state,
                waited,
            ),
            (WriteAcquire::LoadNotify, LockEvent::Loaded(seq)) => WriteAcquire::Recheck { seq },
            (WriteAcquire::Recheck { seq }, LockEvent::Loaded(state)) => if holders(state) == 0
                || !writers_wait(state) {
                Self::decided(state, true)
            } else {
                WriteAcquire::Block { seq }
            },
            (WriteAcquire::Block { .. }, LockEvent::Unblocked) => WriteAcquire::Spin {
                left: SPIN,
                waited: true,
            },
            _ => self,
        }
    }

    /// A lock is only attempted in states in which it may be.
    pub open spec fn wf(self) -> bool {
        match self {
            WriteAcquire::Lock { state, .. } => holders(state) == 0,
            _ => true,
        }
    }

    /// What to do next.
    pub fn action(self) -> (r: LockAction)
        ensures
            r == self.action_spec(),
    {
        match self {
            WriteAcquire::Start => LockAction::Exchange {
                expected: 0,
                new: WRITE_LOCKED,
                weak: true,
            },
            WriteAcquire::Spin { .. } => LockAction::Load,
            WriteAcquire::Lock { state, waited } => LockAction::Exchange {
                expected: state,
                new: if waited {
                    state | WRITE_LOCKED | WRITERS_WAITING
                } else {
                    state | WRITE_LOCKED
                },
                weak: true,
            },
            WriteAcquire::Mark { state, .. } => LockAction::Exchange {
                expected: state,
                new: state | WRITERS_WAITING,
                weak: false,
            },
            WriteAcquire::LoadNotify => LockAction::LoadNotify,
            WriteAcquire::Recheck { .. } => LockAction::Load,
            WriteAcquire::Block { seq } => LockAction::BlockNotify { expected: seq },
            WriteAcquire::Locked => LockAction::Done,
        }
    }

    /// Go on after an event.
    pub fn next(self, event: LockEvent) -> (r: WriteAcquire)
        requires
            self.wf(),
        ensures
            r == self.after(event),
            r.wf(),
    {
        match (self, event) {
            (WriteAcquire::Start, LockEvent::Exchanged) => WriteAcquire::Locked,
            (WriteAcquire::Start, LockEvent::NotExchanged(_)) => WriteAcquire::Spin {
                left: SPIN,
                waited: false,
            },
            (WriteAcquire::Spin { left, waited }, LockEvent::Loaded(state)) => if is_unlocked(state)
                || has_writers_waiting(state) || left == 0 {
                Self::decide(state, waited)
            } else {
                WriteAcquire::Spin { left: left - 1, waited }
            },
            (WriteAcquire::Lock { .. }, LockEvent::Exchanged) => WriteAcquire::Locked,
            (WriteAcquire::Lock { waited, .. }, LockEvent::NotExchanged(state)) => Self::decide(
                state,
                waited,
            ),
            (WriteAcquire::Mark { .. }, LockEvent::Exchanged) => WriteAcquire::LoadNotify,
            (WriteAcquire::Mark { waited, .. }, LockEvent::NotExchanged(state)) => Self::decide(
                state,
                waited,
            ),
            (WriteAcquire::LoadNotify, LockEvent::Loaded(seq)) => WriteAcquire::Recheck { seq },
            (WriteAcquire::Recheck { seq }, LockEvent::Loaded(state)) => if is_unlocked(state)
                || !has_writers_waiting(state) {
                Self::decide(state, true)
            } else {
                WriteAcquire::Block { seq }
            },
            (WriteAcquire::Block { .. }, LockEvent::Unblocked) => WriteAcquire::Spin {
                left: SPIN,
                waited: true,
            },
            _ => self,
        }
    }
}

/// A thread that wakes others after it has released the lock.
///
/// If both readers and writers are waiting, this will wake up only one writer, but will fall back
/// to waking up readers if there was no writer to wake up.
#[derive(Clone, Copy, Debug, PartialEq, Eq, Structural)]
pub enum Release {
    /// Only writers are waiting: clearing that.
    ClearWriters,
    /// Readers and writers are waiting: clearing that writers are.
    ClearWritersOnly,
    /// Waking a writer, with readers to wake if there is none.
    WakeWriter { or_readers: bool },
    /// Only readers are waiting: clearing that.
    ClearReaders,
    /// Waking all readers.
    WakeReaders,
    Done,
}

impl Release {
    /// What to do after the release has left a state in which nobody has the lock.
    pub open spec fn begun(state: u32) -> Release {
        if state == WRITERS_WAITING {
            Release::ClearWriters
        } else {
            Self::begun_with_readers(state)
        }
    }

    /// What to do where not only writers are waiting.
    pub open spec fn begun_with_readers(state: u32) -> Release {
        if state == READERS_WAITING + WRITERS_WAITING {
            Release::ClearWritersOnly
        } else if state == READERS_WAITING {
            Release::ClearReaders
        } else {
            Release::Done
        }
    }

    /// What to do after the release has left a state in which nobody has the lock.
    pub fn begin(state: u32) -> (r: Release)
        ensures
            r == Self::begun(state),
    {
        if state == WRITERS_WAITING {
            Release::ClearWriters
        } else {
            Self::begin_with_readers(state)
        }
    }

    fn begin_with_readers(state: u32) -> (r: Release)
        ensures
            r == Self::begun_with_readers(state),
    {
        if state == READERS_WAITING + WRITERS_WAITING {
            Release::ClearWritersOnly
        } else if state == READERS_WAITING {
            Release::ClearReaders
        } else {
            Release::Done
        }
    }

    /// The action of a phase.
    pub open spec fn action_spec(self) -> LockAction {
        match self {
            Release::ClearWriters => LockAction::Exchange {
                expected: WRITERS_WAITING,
                new: 0,
                weak: false,
            },
            Release::ClearWritersOnly => LockAction::Exchange {
                expected: (READERS_WAITING + WRITERS_WAITING) as u32,
                new: READERS_WAITING,
                weak: false,
            },
            Release::WakeWriter { .. } => LockAction::WakeWriter,
            Release::ClearReaders => LockAction::Exchange {
                expected: READERS_WAITING,
                new: 0,
                weak: false,
            },
            Release::WakeReaders => LockAction::WakeReaders,
            Release::Done => LockAction::Done,
        }
    }

    /// The phase after an event.
    pub open spec fn after(self, event: LockEvent) -> Release {
        match (self, event) {
            (Release::ClearWriters, LockEvent::Exchanged) => Release::WakeWriter {
                or_readers: false,
            },
            (Release::ClearWriters, LockEvent::NotExchanged(state)) => Self::begun_with_readers(
                state,
            ),
            (Release::ClearWritersOnly, LockEvent::Exchanged) => Release::WakeWriter {
                or_readers: true,
            },
            (Release::ClearWritersOnly, LockEvent::NotExchanged(_)) => Release::Done,
            (Release::WakeWriter { or_readers }, LockEvent::Woken(woken)) => if or_readers
                && !woken {
                Release::ClearReaders
            } else {
                Release::Done
            },
            (Release::ClearReaders, LockEvent::Exchanged) => Release::WakeReaders,
            (Release::ClearReaders, LockEvent::NotExchanged(_)) => Release::Done,
            (Release::WakeReaders, LockEvent::Woken(_)) => Release::Done,
            _ => self,
        }
    }

    /// What to do next.
    pub fn action(self) -> (r: LockAction)
        ensures
            r == self.action_spec(),
    {
        match self {
            Release::ClearWriters => LockAction::Exchange {
                expected: WRITERS_WAITING,
                new: 0,
                weak: false,
            },
            Release::ClearWritersOnly => LockAction::Exchange {
                expected: READERS_WAITING + WRITERS_WAITING,
                new: READERS_WAITING,
                weak: false,
            },
            Release::WakeWriter { .. } => LockAction::WakeWriter,
            Release::ClearReaders => LockAction::Exchange {
                expected: READERS_WAITING,
                new: 0,
                weak: false,
            },
            Release::WakeReaders => LockAction::WakeReaders,
            Release::Done => LockAction::Done,
        }
    }

    /// Go on after an event.
    pub fn next(self, event: LockEvent) -> (r: Release)
        ensures
            r == self.after(event),
    {
        match (self, event) {
            (Release::ClearWriters, LockEvent::Exchanged) => Release::WakeWriter {
                or_readers: false,
            },
            (Release::ClearWriters, LockEvent::NotExchanged(state)) => Self::begin_with_readers(
                state,
            ),
            (Release::ClearWritersOnly, LockEvent::Exchanged) => Release::WakeWriter {
                or_readers: true,
            },
            (Release::ClearWritersOnly, LockEvent::NotExchanged(_)) => Release::Done,
            (Release::WakeWriter { or_readers }, LockEvent::Woken(woken)) => if or_readers
                && !woken {
                Release::ClearReaders
            } else {
                Release::Done
            },
            (Release::ClearReaders, LockEvent::Exchanged) => Release::WakeReaders,
            (Release::ClearReaders, LockEvent::NotExchanged(_)) => Release::Done,
            (Release::WakeReaders, LockEvent::Woken(_)) => Release::Done,
            _ => self,
        }
    }
}

/// The state after a reader has released the lock, and what is to be done for those that wait.
pub open spec fn read_unlocked(state: u32) -> (u32, Release) {
    let left = (state - READ_LOCKED) as u32;
    (
        left,
        if holders(left) == 0 && writers_wait(left) {
            Release::begun(left)
        } else {
            Release::Done
        },
    )
}

/// The state after a writer has released the lock, and what is to be done for those that wait.
pub open spec fn write_unlocked(state: u32) -> (u32, Release) {
    let left = (state - WRITE_LOCKED) as u32;
    (
        left,
        if writers_wait(left) || readers_wait(left) {
            Release::begun(left)
        } else {
            Release::Done
        },
    )
}

/// The state that a reader leaves that takes the lock without waiting, if it may.
pub open spec fn read_taken(state: u32) -> Option<u32> {
    if may_read_lock(state) {
        Some((state + READ_LOCKED) as u32)
    } else {
        None
    }
}

/// The state that a writer leaves that takes the lock without waiting, if it may.
pub open spec fn write_taken(state: u32) -> Option<u32> {
    if holders(state) == 0 {
        Some((state + WRITE_LOCKED) as u32)
    } else {
        None
    }
}

/// The state after a reader has released the lock, and what is to be done for those that wait.
pub fn read_unlock(state: u32) -> (r: (u32, Release))
    requires
        0 < holders(state) < WRITE_LOCKED,
    ensures
        r == read_unlocked(state),
{
    proof {
        lemma_parts(state);
    }
    let left: u32 = state - READ_LOCKED;
    if is_unlocked(left) && has_writers_waiting(left) {
        (left, Release::begin(left))
    } else {
        (left, Release::Done)
    }
}

/// The state after a writer has released the lock, and what is to be done for those that wait.
pub fn write_unlock(state: u32) -> (r: (u32, Release))
    requires
        holders(state) == WRITE_LOCKED,
    ensures
        r == write_unlocked(state),
{
    proof {
        lemma_parts(state);
    }
    let left: u32 = state - WRITE_LOCKED;
    if has_writers_waiting(left) || has_readers_waiting(left) {
        (left, Release::begin(left))
    } else {
        (left, Release::Done)
    }
}

/// The state that a reader leaves that takes the lock without waiting, if it may.
pub fn try_read(state: u32) -> (r: Option<u32>)
    ensures
        r == read_taken(state),
{
    proof {
        lemma_parts(state);
    }
    if is_read_lockable(state) {
        Some(state + READ_LOCKED)
    } else {
        None
    }
}

/// The state that a writer leaves that takes the lock without waiting, if it may.
pub fn try_write(state: u32) -> (r: Option<u32>)
    ensures
        r == write_taken(state),
{
    proof {
        lemma_parts(state);
    }
    if is_unlocked(state) {
        Some(state + WRITE_LOCKED)
    } else {
        None
    }
}

/// A lock, with those that hold it.
pub struct LockHolders {
    pub state: u32,
    pub readers: nat,
    pub writer: bool,
}

impl LockHolders {
    /// Whether the state says who holds the lock: some readers, or one writer, or nobody. While
    /// readers hold it, other readers only wait for a writer that waits.
    pub open spec fn is_consistent(self) -> bool {
        &&& holders(self.state) == if self.writer {
            WRITE_LOCKED as int
        } else {
            self.readers as int
        }
        &&& self.writer ==> self.readers == 0
        &&& self.readers <= MAX_READERS
        &&& self.readers > 0 && readers_wait(self.state) ==> writers_wait(self.state)
    }
}

/// A reader and a writer never hold the lock at the same time, nor do two writers: in a consistent
/// state, whoever attempts to lock succeeds only where the other does not hold the lock, and the
/// state that is left is consistent.
pub proof fn lemma_read_lock_excludes_writers(lock: LockHolders, phase: ReadAcquire)
    requires
        lock.is_consistent(),
        phase == (ReadAcquire::Lock { state: lock.state }) || phase == (ReadAcquire::LockAtOnce {
            state: lock.state,
        }),
        phase.wf(),
    ensures
        !lock.writer,
        phase.after(LockEvent::Exchanged) is Locked,
        (LockHolders {
            state: (phase.action_spec())->new,
            readers: lock.readers + 1,
            writer: false,
        }).is_consistent(),
{
    lemma_parts(lock.state);
}

/// A writer that locks is alone, and the state that is left says so.
pub proof fn lemma_write_lock_excludes_all(lock: LockHolders, phase: WriteAcquire)
    requires
        lock.is_consistent(),
        phase.wf(),
        match phase {
            WriteAcquire::Lock { state, .. } => state == lock.state,
            WriteAcquire::Start => lock.state == 0,
            _ => false,
        },
    ensures
        !lock.writer && lock.readers == 0,
        phase.after(LockEvent::Exchanged) is Locked,
        (LockHolders {
            state: (phase.action_spec())->new,
            readers: 0,
            writer: true,
        }).is_consistent(),
{
    lemma_parts(lock.state);
    lemma_parts(lock.state | WRITE_LOCKED);
    assert(WRITE_LOCKED & MASK == WRITE_LOCKED) by {
        assert(0x3fff_ffffu32 & 0x3fff_ffff == 0x3fff_ffff) by (bit_vector);
    }
}

/// Releasing the lock leaves a consistent state.
pub proof fn lemma_unlock_is_consistent(lock: LockHolders)
    requires
        lock.is_consistent(),
    ensures
        lock.readers > 0 ==> (LockHolders {
            state: (lock.state - READ_LOCKED) as u32,
            readers: (lock.readers - 1) as nat,
            writer: false,
        }).is_consistent() && lock.state >= READ_LOCKED,
        lock.writer ==> (LockHolders {
            state: (lock.state - WRITE_LOCKED) as u32,
            readers: 0,
            writer: false,
        }).is_consistent() && lock.state >= WRITE_LOCKED,
{
    lemma_parts(lock.state);
}

/// Noting that somebody waits leaves a consistent state.
pub proof fn lemma_mark_is_consistent(lock: LockHolders, reader: ReadAcquire, writer: WriteAcquire)
    requires
        lock.is_consistent(),
    ensures
        reader == (ReadAcquire::Mark { state: lock.state }) && reader.wf() ==> (LockHolders {
            state: (reader.action_spec())->new,
            ..lock
        }).is_consistent(),
        (exists|waited: bool| writer == (WriteAcquire::Mark { state: lock.state, waited })) ==> (
        LockHolders { state: (writer.action_spec())->new, ..lock }).is_consistent(),
{
    lemma_parts(lock.state);
}

/// Clearing that somebody waits, after a release, leaves a consistent state.
pub proof fn lemma_clear_is_consistent(lock: LockHolders, phase: Release)
    requires
        lock.is_consistent(),
        phase.action_spec() is Exchange,
        lock.state == (phase.action_spec())->Exchange_expected,
    ensures
        !lock.writer && lock.readers == 0,
        (LockHolders { state: (phase.action_spec())->new, ..lock }).is_consistent(),
{
    lemma_parts(lock.state);
}

/// A release after which somebody waits wakes somebody, if nobody interferes: a writer if one
/// waits, else all readers; and readers too, if it turns out that no writer could be woken.
pub proof fn lemma_release_wakes(state: u32)
    requires
        holders(state) == 0,
        readers_wait(state) || writers_wait(state),
    ensures
        ({
            let cleared = Release::begun(state).after(LockEvent::Exchanged);
            if writers_wait(state) {
                &&& cleared is WakeWriter
                &&& readers_wait(state) ==> cleared.after(LockEvent::Woken(false)).after(
                    LockEvent::Exchanged,
                ) is WakeReaders
            } else {
                cleared is WakeReaders
            }
        }),
{
    lemma_parts(state);
}

/// A lock with the data that it guards, and those that hold it.
pub struct LockedData<T> {
    pub state: u32,
    /// The numbers of the guards that are held for reading.
    pub read_guards: Set<nat>,
    /// Whether a guard is held for writing.
    pub write_guard: bool,
    pub value: T,
}

/// What can happen to a lock and its data, at one time.
pub enum LockStep<T> {
    /// A reader locks, and gets a guard.
    Read { phase: ReadAcquire, guard: nat },
    /// A writer locks, and gets a guard.
    Write { phase: WriteAcquire },
    /// A writer locks that does not wait.
    TryWrite,
    /// A guard for writing is used to replace the data.
    Replace { value: T },
    /// The owner of the lock replaces the data without locking.
    Overwrite { value: T },
    /// A guard for reading is dropped.
    DropRead { guard: nat },
    /// The guard for writing is dropped.
    DropWrite,
    /// It is noted that readers are waiting.
    MarkReaders { phase: ReadAcquire },
    /// It is noted that writers are waiting.
    MarkWriters { phase: WriteAcquire },
    /// It is noted that somebody is no longer waiting.
    Clear { phase: Release },
}

impl<T> LockedData<T> {
    /// Those that hold the lock.
    pub open spec fn holders(self) -> LockHolders {
        LockHolders {
            state: self.state,
            readers: self.read_guards.len(),
            writer: self.write_guard,
        }
    }

    /// Whether the state says who holds the lock.
    pub open spec fn is_consistent(self) -> bool {
        self.read_guards.finite() && self.holders().is_consistent()
    }

    /// Whether something can happen: who locks or notes something has seen the state as it is, only
    /// a guard for writing can be used to replace the data, the owner has lent the lock to nobody,
    /// and only guards that are held are dropped.
    pub open spec fn can(self, step: LockStep<T>) -> bool {
        match step {
            LockStep::Read { phase, guard } => {
                &&& phase == (ReadAcquire::Lock { state: self.state }) || phase
                    == (ReadAcquire::LockAtOnce { state: self.state })
                &&& phase.wf()
                &&& !self.read_guards.contains(guard)
            },
            LockStep::Write { phase } => {
                &&& phase.wf()
                &&& match phase {
                    WriteAcquire::Lock { state, .. } => state == self.state,
                    WriteAcquire::Start => self.state == 0,
                    _ => false,
                }
            },
            LockStep::TryWrite => holders(self.state) == 0,
            LockStep::Replace { .. } => self.write_guard,
            LockStep::Overwrite { .. } => self.read_guards.len() == 0 && !self.write_guard,
            LockStep::DropRead { guard } => self.read_guards.contains(guard),
            LockStep::DropWrite => self.write_guard,
            LockStep::MarkReaders { phase } => phase == (ReadAcquire::Mark { state: self.state })
                && phase.wf(),
            LockStep::MarkWriters { phase } => exists|waited: bool|
                phase == (WriteAcquire::Mark { state: self.state, waited }),
            LockStep::Clear { phase } => phase.action_spec() is Exchange && self.state
                == (phase.action_spec())->Exchange_expected,
        }
    }

    /// The lock and its data after something has happened.
    pub open spec fn after(self, step: LockStep<T>) -> LockedData<T> {
        match step {
            LockStep::Read { phase, guard } => LockedData {
                state: (phase.action_spec())->new,
                read_guards: self.read_guards.insert(guard),
                ..self
            },
            LockStep::Write { phase } => LockedData {
                state: (phase.action_spec())->new,
                write_guard: true,
                ..self
            },
            LockStep::TryWrite => LockedData {
                state: (self.state + WRITE_LOCKED) as u32,
                write_guard: true,
                ..self
            },
            LockStep::Replace { value } => LockedData { value, ..self },
            LockStep::Overwrite { value } => LockedData { value, ..self },
            LockStep::DropRead { guard } => LockedData {
                state: (self.state - READ_LOCKED) as u32,
                read_guards: self.read_guards.remove(guard),
                ..self
            },
            LockStep::DropWrite => LockedData {
                state: (self.state - WRITE_LOCKED) as u32,
                write_guard: false,
                ..self
            },
            LockStep::MarkReaders { phase } => LockedData {
                state: (phase.action_spec())->new,
                ..self
            },
            LockStep::MarkWriters { phase } => LockedData {
                state: (phase.action_spec())->new,
                ..self
            },
            LockStep::Clear { phase } => LockedData { state: (phase.action_spec())->new, ..self },
        }
    }

    /// The lock and its data after one thing after the other has happened.
    pub open spec fn after_all(self, steps: Seq<LockStep<T>>) -> LockedData<T>
        decreases steps.len(),
    {
        if steps.len() == 0 {
            self
        } else {
            self.after_all(steps.drop_last()).after(steps.last())
        }
    }

    /// Whether one thing after the other can happen.
    pub open spec fn can_all(self, steps: Seq<LockStep<T>>) -> bool
        decreases steps.len(),
    {
        steps.len() > 0 ==> self.can_all(steps.drop_last()) && self.after_all(
            steps.drop_last(),
        ).can(steps.last())
    }
}

/// Whatever happens to a lock, its state goes on saying who holds it.
pub proof fn lemma_steps_are_consistent<T>(data: LockedData<T>, step: LockStep<T>)
    requires
        data.is_consistent(),
        data.can(step),
    ensures
        data.after(step).is_consistent(),
{
    let lock = data.holders();
    match step {
        LockStep::Read { phase, .. } => lemma_read_lock_excludes_writers(lock, phase),
        LockStep::Write { phase } => lemma_write_lock_excludes_all(lock, phase),
        LockStep::TryWrite => lemma_parts(data.state),
        LockStep::Replace { .. } => {},
        LockStep::Overwrite { .. } => {},
        LockStep::DropRead { .. } => lemma_unlock_is_consistent(lock),
        LockStep::DropWrite => lemma_unlock_is_consistent(lock),
        LockStep::MarkReaders { phase } => lemma_mark_is_consistent(
            lock,
            phase,
            WriteAcquire::Start,
        ),
        LockStep::MarkWriters { phase } => lemma_mark_is_consistent(lock, ReadAcquire::Start, phase),
        LockStep::Clear { phase } => lemma_clear_is_consistent(lock, phase),
    }
}

/// While a guard for reading is held, no guard for writing is, and the data stays one and the same
/// value, whatever else happens to the lock; other guards for reading may be held as well.
pub proof fn lemma_readers_see_one_value<T>(
    data: LockedData<T>,
    steps: Seq<LockStep<T>>,
    guard: nat,
)
    requires
        data.is_consistent(),
        data.can_all(steps),
        data.read_guards.contains(guard),
        forall|k: int|
            0 <= k < steps.len() ==> #[trigger] steps[k] != (LockStep::<T>::DropRead { guard }),
    ensures
        data.after_all(steps).is_consistent(),
        data.after_all(steps).read_guards.contains(guard),
        !data.after_all(steps).write_guard,
        data.after_all(steps).value == data.value,
    decreases steps.len(),
{
    if steps.len() == 0 {
        lemma_guards_are_counted(data, guard);
    } else {
        let fewer = steps.drop_last();
        assert forall|k: int| 0 <= k < fewer.len() implies #[trigger] fewer[k] != (LockStep::<
            T,
        >::DropRead { guard }) by {
            assert(fewer[k] == steps[k]);
        }
        lemma_readers_see_one_value(data, fewer, guard);
        let before = data.after_all(fewer);
        let step = steps[steps.len() - 1];
        lemma_steps_are_consistent(before, step);
        lemma_guards_are_counted(before, guard);
        lemma_guards_are_counted(before.after(step), guard);
    }
}

/// The value that was written last, or that was there if none was.
pub open spec fn last_written<T>(value: T, steps: Seq<LockStep<T>>) -> T
    decreases steps.len(),
{
    if steps.len() == 0 {
        value
    } else {
        match steps.last() {
            LockStep::Replace { value: v } => v,
            LockStep::Overwrite { value: v } => v,
            _ => last_written(value, steps.drop_last()),
        }
    }
}

/// The data is what was written last, so this is what guards show, and what is left without the
/// lock.
pub proof fn lemma_data_is_what_was_written<T>(data: LockedData<T>, steps: Seq<LockStep<T>>)
    requires
        data.can_all(steps),
    ensures
        data.after_all(steps).value == last_written(data.value, steps),
    decreases steps.len(),
{
    if steps.len() > 0 {
        lemma_data_is_what_was_written(data, steps.drop_last());
    }
}

/// While the guard for writing is held, no other guard is, and the data changes only through it.
pub proof fn lemma_writers_are_alone<T>(data: LockedData<T>, step: LockStep<T>)
    requires
        data.is_consistent(),
        data.can(step),
        data.write_guard,
    ensures
        data.read_guards =~= Set::<nat>::empty(),
        !(step is Read) && !(step is Write) && !(step is TryWrite),
        !(step is Replace) ==> data.after(step).value == data.value,
{
    assert(data.read_guards.len() == 0);
    lemma_parts(data.state);
    match step {
        LockStep::Read { phase, .. } => lemma_read_lock_excludes_writers(data.holders(), phase),
        LockStep::Write { phase } => lemma_write_lock_excludes_all(data.holders(), phase),
        _ => {},
    }
}

/// A guard for reading is among those that are counted.
proof fn lemma_guards_are_counted<T>(data: LockedData<T>, guard: nat)
    requires
        data.is_consistent(),
        data.read_guards.contains(guard),
    ensures
        data.read_guards.len() > 0,
        !data.write_guard,
{
    if data.read_guards.len() == 0 {
        assert(data.read_guards =~= Set::<nat>::empty());
    }
}

} // verus!
