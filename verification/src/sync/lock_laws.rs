//! What holds of taking and releasing reader-writer locks.
use crate::sync::rwlock::{
    lemma_parts, read_taken, read_unlocked, write_taken, write_unlocked, LockAction, LockEvent,
    ReadAcquire, WriteAcquire,
};
use vstd::prelude::*;

verus! {

/// A lock that nobody holds or waits for is taken at once, for reading or for writing.
pub proof fn lemma_free_lock_is_taken()
    ensures
        read_taken(0) == Some(1u32),
        write_taken(0) == Some(0x3fff_ffffu32),
        ({
            let seen = ReadAcquire::Start.after(LockEvent::Loaded(0));
            &&& ReadAcquire::Start.action_spec() is Load
            &&& seen.action_spec() is Exchange
            &&& seen.action_spec()->Exchange_expected == 0
            &&& seen.action_spec()->new == 1
            &&& seen.after(LockEvent::Exchanged) is Locked
            &&& seen.after(LockEvent::Exchanged).action_spec() is Done
        }),
        WriteAcquire::Start.action_spec() is Exchange,
        WriteAcquire::Start.action_spec()->Exchange_expected == 0,
        WriteAcquire::Start.action_spec()->new == 0x3fff_ffff,
        WriteAcquire::Start.after(LockEvent::Exchanged) is Locked,
        WriteAcquire::Locked.action_spec() is Done,
{
    lemma_parts(0);
}

/// A lock can be taken for reading without waiting exactly if no writer holds it, there are not too
/// many readers, and neither readers (0x40000000) nor writers (0x80000000) wait. There is then one
/// reader more.
pub proof fn lemma_reading_without_waiting(state: u32)
    ensures
        read_taken(state) is Some <==> state & 0x3fff_ffff < 0x3fff_fffe && state & 0x4000_0000 == 0
            && state & 0x8000_0000 == 0,
        read_taken(state) is Some ==> read_taken(state)->Some_0 == state + 1,
{
    lemma_parts(state);
}

/// A lock can be taken for writing without waiting exactly if nobody holds it; who waits still does.
pub proof fn lemma_writing_without_waiting(state: u32)
    ensures
        write_taken(state) is Some <==> state & 0x3fff_ffff == 0,
        write_taken(state) is Some ==> {
            let taken = write_taken(state)->Some_0;
            &&& taken & 0x3fff_ffff == 0x3fff_ffff
            &&& taken & 0x4000_0000 != 0 <==> state & 0x4000_0000 != 0
            &&& taken & 0x8000_0000 != 0 <==> state & 0x8000_0000 != 0
        },
{
    lemma_parts(state);
}

/// A lock that was taken without waiting is as it was once it is released, and there is nothing more
/// to do where nobody waits.
pub proof fn lemma_taken_is_released(state: u32)
    ensures
        read_taken(state) is Some ==> read_unlocked(read_taken(state)->Some_0).0 == state,
        read_taken(state) is Some ==> read_unlocked(read_taken(state)->Some_0).1 is Done,
        write_taken(state) is Some ==> write_unlocked(write_taken(state)->Some_0).0 == state,
        write_taken(state) is Some && state == 0 ==> write_unlocked(write_taken(state)->Some_0).1
            is Done,
{
    lemma_parts(state);
}

/// The last reader wakes a writer if one waits, and a reader that is not the last wakes nobody.
pub proof fn lemma_last_reader_wakes_writer(state: u32)
    requires
        0 < state & 0x3fff_ffff < 0x3fff_ffff,
    ensures
        read_unlocked(state).0 == state - 1,
        ({
            let release = read_unlocked(state).1;
            let is_last = state & 0x3fff_ffff == 1;
            &&& is_last && state & 0x8000_0000 != 0 ==> release.after(LockEvent::Exchanged)
                is WakeWriter && release.after(LockEvent::Exchanged).action_spec() is WakeWriter
            &&& !is_last ==> release is Done
            &&& state & 0x8000_0000 == 0 ==> release is Done
        }),
{
    lemma_parts(state);
    lemma_parts((state - 1) as u32);
}

/// A writer that releases the lock wakes a writer if one waits, else the readers that wait, and
/// readers too if no writer could be woken.
pub proof fn lemma_writer_wakes_waiters(state: u32)
    requires
        state & 0x3fff_ffff == 0x3fff_ffff,
    ensures
        write_unlocked(state).0 == state - 0x3fff_ffff,
        ({
            let release = write_unlocked(state).1;
            let cleared = release.after(LockEvent::Exchanged);
            &&& state & 0x8000_0000 != 0 ==> cleared.action_spec() is WakeWriter
            &&& state & 0x8000_0000 == 0 && state & 0x4000_0000 != 0 ==> cleared.action_spec()
                is WakeReaders
            &&& state & 0x8000_0000 != 0 && state & 0x4000_0000 != 0 ==> cleared.after(
                LockEvent::Woken(false),
            ).after(LockEvent::Exchanged).action_spec() is WakeReaders
            &&& state & 0x8000_0000 != 0 ==> cleared.after(LockEvent::Woken(true)) is Done
            &&& state & 0x8000_0000 == 0 && state & 0x4000_0000 == 0 ==> release is Done
        }),
{
    lemma_parts(state);
    lemma_parts((state - 0x3fff_ffff) as u32);
}

/// A reader that cannot take the lock notes that readers wait, and then blocks until the state has
/// changed; where it can, it does. It fails only if there are too many readers.
pub proof fn lemma_readers_wait(state: u32)
    ensures
        ({
            let decided = ReadAcquire::decided(state);
            let count = state & 0x3fff_ffff;
            let is_waited_for = state & 0x4000_0000 != 0 || state & 0x8000_0000 != 0;
            &&& count < 0x3fff_fffe && !is_waited_for ==> decided is Lock && decided.action_spec()
                is Exchange && decided.action_spec()->Exchange_expected == state
                && decided.action_spec()->new == state + 1
            &&& count == 0x3fff_fffe ==> decided.action_spec() is Fail
            &&& count == 0x3fff_ffff && state & 0x4000_0000 == 0 ==> decided.action_spec()
                is Exchange && decided.action_spec()->new == state | 0x4000_0000 && decided.after(
                LockEvent::Exchanged,
            ).action_spec() == (LockAction::Block { expected: state | 0x4000_0000 })
            &&& count == 0x3fff_ffff && state & 0x4000_0000 != 0 ==> decided.action_spec()
                is Block
            &&& count < 0x3fff_fffe && is_waited_for ==> !(decided is Lock)
        }),
        (ReadAcquire::Block { state }).after(LockEvent::Unblocked).action_spec() is Load,
{
    lemma_parts(state);
}

/// A writer that cannot take the lock notes that writers wait, and blocks unless the lock was
/// released in between; where it can, it does, and after having waited it notes that others may
/// wait too.
pub proof fn lemma_writers_wait(state: u32, waited: bool, seq: u32)
    ensures
        ({
            let decided = WriteAcquire::decided(state, waited);
            let count = state & 0x3fff_ffff;
            &&& count == 0 ==> decided is Lock && decided.action_spec() is Exchange
                && decided.action_spec()->Exchange_expected == state && decided.after(
                LockEvent::Exchanged,
            ) is Locked
            &&& count == 0 ==> decided.action_spec()->new & 0x3fff_ffff == 0x3fff_ffff
            &&& count == 0 && waited ==> decided.action_spec()->new & 0x8000_0000 != 0
            &&& count != 0 && state & 0x8000_0000 == 0 ==> decided.action_spec() is Exchange
                && decided.action_spec()->new == state | 0x8000_0000 && decided.after(
                LockEvent::Exchanged,
            ).action_spec() is LoadNotify
            &&& count != 0 && state & 0x8000_0000 != 0 ==> decided.action_spec() is LoadNotify
        }),
        ({
            let loaded = WriteAcquire::LoadNotify.after(LockEvent::Loaded(seq));
            let seen = loaded.after(LockEvent::Loaded(state));
            &&& loaded.action_spec() is Load
            &&& state & 0x3fff_ffff != 0 && state & 0x8000_0000 != 0 ==> seen.action_spec() == (
            LockAction::BlockNotify { expected: seq })
            &&& state & 0x3fff_ffff == 0 ==> seen is Lock
            &&& seen is Block ==> seen.after(LockEvent::Unblocked).action_spec() is Load
        }),
{
    lemma_parts(state);
    lemma_parts(state | 0x3fff_ffff);
}

} // verus!
