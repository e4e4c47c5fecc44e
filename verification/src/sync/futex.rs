//! A Linux-y `futex`-like abstraction. Fast user-space mutexes.
use crate::event::wait::WaitError;
use crate::net::ring::smaller;
use crate::utilities::loan_list::{
    is_not_in, lemma_filtered, numbers, with_states, EntryState, LoanList, LoanListEntry,
    LoanListView, };
use vstd::prelude::*;

verus! {

/// The number of lists of waiters.
pub const HASH_TABLE_ENTRIES: usize = 256;

/// The bitset of those that do not care.
pub const ALL_BITS: u32 = 0xffff_ffff;

/// Potential errors that can be returned by [`FutexManager`]'s operations.
#[derive(Clone, Copy, Debug, PartialEq, Eq, Structural)]
pub enum FutexError {
    /// The address is not correctly aligned to 4-bytes.
    NotAligned,
    /// Immediately woken: value did not match expected.
    ImmediatelyWokenBecauseValueMismatch,
    /// Waiting failed.
    WaitError(WaitError),
    /// Fault reading futex word.
    Fault,
}

/// A waiter.
#[derive(Clone, Copy, Debug, PartialEq, Eq, Structural)]
pub struct FutexEntry {
    pub addr: usize,
    /// The number of the thread that waits.
    pub thread: usize,
    pub bitset: u32,
}

/// A handle to a waiter.
#[derive(Clone, Copy, Debug, PartialEq, Eq, Structural)]
pub struct FutexWaiter {
    bucket: usize,
    entry: LoanListEntry,
}

impl FutexWaiter {
    /// The list that the waiter is on.
    pub closed spec fn bucket_index(&self) -> int {
        self.bucket as int
    }

    /// The number of the waiter in its list.
    pub closed spec fn number(&self) -> int {
        self.entry.number()
    }
}

/// The list that waiters on an address are on.
pub open spec fn bucket_of(addr: usize) -> int {
    (addr / 4) as int % HASH_TABLE_ENTRIES as int
}

/// The bits that a bitset stands for.
pub open spec fn bits_of(bitset: Option<u32>) -> u32 {
    match bitset {
        Some(bits) => bits,
        None => ALL_BITS,
    }
}

/// Whether a waiter is to be woken by a wake on an address for some bits.
pub open spec fn is_woken_by(list: LoanListView<FutexEntry>, addr: usize, bits: u32) -> spec_fn(
    usize,
) -> bool {
    |i: usize| list.values[i as int].addr == addr && list.values[i as int].bitset & bits != 0
}

/// The waiters that a wake on an address for some bits wakes: the first ones that are to be woken.
pub open spec fn woken_waiters(
    list: LoanListView<FutexEntry>,
    addr: usize,
    bits: u32,
    limit: u32,
) -> Seq<usize> {
    let eligible = list.listed.filter(is_woken_by(list, addr, bits));
    eligible.take(smaller(limit as nat, eligible.len()) as int)
}

/// A list of waiters after some of them have been woken.
pub open spec fn without_waiters(list: LoanListView<FutexEntry>, woken: Seq<usize>) -> LoanListView<
    FutexEntry,
> {
    LoanListView {
        values: list.values,
        states: with_states(list.states, woken, EntryState::Removed),
        listed: list.listed.filter(is_not_in(woken)),
        free: list.free,
    }
}

/// A manager of all available futexes.
///
/// Note: currently, this only supports "private" futexes, since it assumes only a single process.
pub struct FutexManager {
    /// Lists of waiters, by futex address.
    table: Vec<LoanList<FutexEntry>>,
}

impl View for FutexManager {
    type V = Seq<LoanListView<FutexEntry>>;

    closed spec fn view(&self) -> Seq<LoanListView<FutexEntry>> {
        self.table@.map_values(|l: LoanList<FutexEntry>| l@)
    }
}

/// Whether lists of waiters are in order: every waiter is on the list for its address, and either
/// waits or has been removed.
pub open spec fn are_waiter_lists(lists: Seq<LoanListView<FutexEntry>>) -> bool {
    &&& lists.len() == HASH_TABLE_ENTRIES
    &&& forall|b: int| 0 <= b < lists.len() ==> is_waiter_list(#[trigger] lists[b], b)
}

/// Whether a list of waiters is in order.
pub open spec fn is_waiter_list(list: LoanListView<FutexEntry>, b: int) -> bool {
    &&& list.is_valid()
    &&& forall|i: int| 0 <= i < list.values.len() ==> bucket_of((#[trigger] list.values[i]).addr) == b
    &&& forall|i: int|
        0 <= i < list.states.len() ==> #[trigger] list.states[i] is Inserted
            || list.states[i] is Removed
}

fn bucket(addr: usize) -> (r: usize)
    ensures
        r == bucket_of(addr),
        r < HASH_TABLE_ENTRIES,
{
    (addr / 4) % HASH_TABLE_ENTRIES
}

impl FutexManager {
    /// A new futex manager.
    pub fn new() -> (r: Self)
        ensures
            are_waiter_lists(r@),
            forall|b: int| 0 <= b < r@.len() ==> (#[trigger] r@[b]).values.len() == 0,
    {
        let mut table: Vec<LoanList<FutexEntry>> = Vec::new();
        while table.len() < HASH_TABLE_ENTRIES
            invariant
                table.len() <= HASH_TABLE_ENTRIES,
                forall|b: int|
                    0 <= b < table.len() ==> (#[trigger] table@[b])@.is_valid()
                        && table@[b]@.values.len() == 0 && table@[b]@.listed.len() == 0,
            decreases HASH_TABLE_ENTRIES - table.len(),
        {
            table.push(LoanList::new());
        }
        let r = FutexManager { table };
        assert forall|b: int| 0 <= b < r@.len() implies is_waiter_list(#[trigger] r@[b], b) by {
            assert(r@[b] == table@[b]@);
        }
        assert forall|b: int| 0 <= b < r@.len() implies (#[trigger] r@[b]).values.len() == 0 by {
            assert(r@[b] == table@[b]@);
        }
        r
    }

    /// Begins a futex wait of a thread.
    ///
    /// After this, the futex word has to be read, and [`check_value`](Self::check_value) be told
    /// what it was. The waiter is on its list before the word is read, so that a wake is not
    /// missed.
    ///
    /// If `bitset` is `Some`, then the waiter is only woken if the wake call's `bitset` has a
    /// non-zero intersection with the waiter's mask. Specifying `None` is equivalent to setting all
    /// bits in the mask.
    pub fn wait(&mut self, addr: usize, bitset: Option<u32>, thread: usize) -> (r: Result<
        FutexWaiter,
        FutexError,
    >)
        requires
            are_waiter_lists(old(self)@),
            bitset is Some ==> bitset->Some_0 != 0,
        ensures
            are_waiter_lists(final(self)@),
            waits_on(old(self)@, addr, bitset, thread, final(self)@, r),
    {
        if addr % 4 != 0 {
            return Err(FutexError::NotAligned);
        }
        let bits: u32 = match bitset {
            Some(bits) => bits,
            None => ALL_BITS,
        };
        let b: usize = bucket(addr);
        let ghost before = self@;
        assert(is_waiter_list(before[b as int], b as int));
        assert(before[b as int] == self.table@[b as int]@);
        let entry = self.table[b].insert(FutexEntry { addr, thread, bitset: bits });
        proof {
            let list = self.table@[b as int]@;
            assert(self@ =~= before.update(b as int, list));
            assert(is_waiter_list(list, b as int)) by {
                assert forall|i: int| 0 <= i < list.values.len() implies bucket_of(
                    (#[trigger] list.values[i]).addr,
                ) == b by {
                    if i != entry.number() {
                        assert(list.values[i] == before[b as int].values[i]);
                    }
                }
                assert forall|i: int| 0 <= i < list.states.len() implies #[trigger] list.states[i]
                    is Inserted || list.states[i] is Removed by {
                    if i != entry.number() {
                        assert(list.states[i] == before[b as int].states[i]);
                    }
                }
            }
            lemma_one_list_changed(before, self@, b as int);
            assert(!list.free.contains(entry.number() as usize)) by {
                if list.free.contains(entry.number() as usize) {
                    let a = choose|a: int|
                        0 <= a < list.free.len() && list.free[a] == entry.number() as usize;
                    assert(list.states[list.free[a] as int] == EntryState::Removed);
                }
            }
        }
        Ok(FutexWaiter { bucket: b, entry })
    }

    /// Take a waiter off its list, if it is still on it.
    fn forget(&mut self, waiter: FutexWaiter)
        requires
            are_waiter_lists(old(self)@),
            is_waiter(old(self)@, waiter),
        ensures
            are_waiter_lists(final(self)@),
            final(self)@ == forgotten(old(self)@, waiter),
    {
        let ghost before = self@;
        let b: usize = waiter.bucket;
        let ghost k = b as int;
        assert(is_waiter_list(before[k], k));
        assert(before[k] == self.table@[k]@);
        assert(before[k].states[waiter.number()] is Inserted
            || before[k].states[waiter.number()] is Removed);
        let outcome = self.table[b].remove(waiter.entry);
        let ghost removed = self.table@[k]@;
        assert(removed.states =~= before[k].states.update(waiter.number(), EntryState::Removed));
        self.table[b].release(waiter.entry);
        proof {
            let list = self.table@[k]@;
            assert(self@ =~= forgotten(before, waiter));
            assert(is_waiter_list(list, k)) by {
                assert forall|i: int| 0 <= i < list.states.len() implies #[trigger] list.states[i]
                    is Inserted || list.states[i] is Removed by {
                    assert(before[k].states[i] is Inserted || before[k].states[i] is Removed);
                }
            }
            lemma_one_list_changed(before, self@, k);
        }
    }

    /// Says what the futex word was when the waiter was on its list: nothing, where it could not be
    /// read. If it is not the expected value, the wait has ended.
    pub fn check_value(&mut self, waiter: FutexWaiter, value: Option<u32>, expected_value: u32) -> (r:
        Result<(), FutexError>)
        requires
            are_waiter_lists(old(self)@),
            is_waiter(old(self)@, waiter),
        ensures
            are_waiter_lists(final(self)@),
            checks_value(old(self)@, waiter, value, expected_value, final(self)@, r),
    {
        match value {
            None => {
                self.forget(waiter);
                Err(FutexError::Fault)
            },
            Some(v) => {
                if v != expected_value {
                    self.forget(waiter);
                    return Err(FutexError::ImmediatelyWokenBecauseValueMismatch);
                }
                Ok(())
            },
        }
    }

    /// Whether a waiter has been woken: the condition to wait for.
    pub fn is_done(&self, waiter: FutexWaiter) -> (r: bool)
        requires
            is_waiter(self@, waiter),
        ensures
            r == has_been_woken(self@, waiter),
    {
        assert(self@[waiter.bucket_index()] == self.table@[waiter.bucket_index()]@);
        self.table[waiter.bucket].state(waiter.entry) != EntryState::Inserted
    }

    /// Ends a futex wait, with what came of waiting.
    pub fn finish_wait(&mut self, waiter: FutexWaiter, error: Option<WaitError>) -> (r: Result<
        (),
        FutexError,
    >)
        requires
            are_waiter_lists(old(self)@),
            is_waiter(old(self)@, waiter),
        ensures
            are_waiter_lists(final(self)@),
            final(self)@ == forgotten(old(self)@, waiter),
            r == wait_outcome(error),
    {
        self.forget(waiter);
        match error {
            Some(e) => Err(FutexError::WaitError(e)),
            None => Ok(()),
        }
    }

    /// Wakes waiters on the given futex word. Returns the threads that were woken up.
    ///
    /// This operation wakes at most `num_to_wake_up` of the waiters that are waiting on the futex
    /// word.
    ///
    /// If `bitset` is `Some`, then it contains a mask that specifies which waiters to wake up.
    /// Specifically, any waiters that have a non-zero intersection between their masks and the
    /// provided `bitset` can be woken, (subject to the `num_to_wake_up` limit). If `bitset` is
    /// `None`, then all waiters are eligible to be woken.
    pub fn wake(&mut self, addr: usize, num_to_wake_up: u32, bitset: Option<u32>) -> (r: Result<
        Vec<usize>,
        FutexError,
    >)
        requires
            are_waiter_lists(old(self)@),
            num_to_wake_up > 0,
            bitset is Some ==> bitset->Some_0 != 0,
        ensures
            are_waiter_lists(final(self)@),
            wakes_on(old(self)@, addr, num_to_wake_up, bitset, final(self)@, r),
    {
        if addr % 4 != 0 {
            return Err(FutexError::NotAligned);
        }
        let bits: u32 = match bitset {
            Some(bits) => bits,
            None => ALL_BITS,
        };
        let b: usize = bucket(addr);
        let ghost before = self@;
        let ghost k = b as int;
        let ghost list = before[k];
        assert(is_waiter_list(list, k));
        assert(list == self.table@[k]@);
        let ghost eligible = is_woken_by(list, addr, bits);
        let all = self.table[b].entries();
        let mut chosen: Vec<LoanListEntry> = Vec::new();
        let mut threads: Vec<usize> = Vec::new();
        let mut j: usize = 0;
        proof {
            reveal(Seq::filter);
            assert(list.listed.take(0).filter(eligible) =~= Seq::empty());
            assert(numbers(chosen@) =~= Seq::empty());
        }
        while j < all.len() && (chosen.len() as u64) < num_to_wake_up as u64
            invariant
                j <= all.len(),
                b < HASH_TABLE_ENTRIES,
                self.table@.len() == HASH_TABLE_ENTRIES,
                k == b,
                list == self.table@[k]@,
                is_waiter_list(list, k),
                all@.len() == list.listed.len(),
                forall|a: int| 0 <= a < all@.len() ==> (#[trigger] all@[a]).number() == list.listed[a],
                eligible == is_woken_by(list, addr, bits),
                chosen.len() <= j,
                chosen.len() <= num_to_wake_up,
                numbers(chosen@) == list.listed.take(j as int).filter(eligible),
                forall|a: int|
                    0 <= a < chosen@.len() ==> (#[trigger] chosen@[a]).number() == numbers(
                        chosen@,
                    )[a],
                threads@ == numbers(chosen@).map_values(
                    |i: usize| list.values[i as int].thread,
                ),
            decreases all.len() - j,
        {
            let entry = all[j];
            let ghost n = list.listed[j as int];
            assert(all@[j as int].number() == n);
            assert(list.listed[j as int] < list.states.len());
            let value = self.table[b].get(entry);
            assert(*value == list.values[n as int]);
            proof {
                reveal(Seq::filter);
                assert(list.listed.take(j + 1).drop_last() =~= list.listed.take(j as int));
            }
            let ghost chosen_before = chosen@;
            if value.addr == addr && value.bitset & bits != 0 {
                let thread: usize = value.thread;
                chosen.push(entry);
                threads.push(thread);
                assert(numbers(chosen@) =~= numbers(chosen_before).push(n));
                assert(threads@ =~= numbers(chosen@).map_values(
                    |i: usize| list.values[i as int].thread,
                ));
            }
            j = j + 1;
        }
        let ghost woken = woken_waiters(list, addr, bits, num_to_wake_up);
        proof {
            let full = list.listed.filter(eligible);
            lemma_filter_prefix(list.listed, eligible, j as int);
            if j == all.len() {
                assert(list.listed.take(j as int) =~= list.listed);
            }
            assert(numbers(chosen@).len() == chosen@.len());
            assert(numbers(chosen@) =~= woken);
            lemma_filtered(list.listed, eligible);
            assert forall|a: int| 0 <= a < chosen@.len() implies list.listed.contains(
                (#[trigger] chosen@[a]).number() as usize,
            ) by {
                assert(numbers(chosen@)[a] == chosen@[a].number() as usize);
                assert(woken[a] == full[a]);
                assert(full.contains(full[a]));
            }
            assert forall|a: int, c: int| 0 <= a < woken.len() && 0 <= c < woken.len() && a
                != c implies woken[a] != woken[c] by {
                assert(full[a] != full[c]);
            }
        }
        self.table[b].lend(&chosen);
        let ghost lent = self.table@[k]@;
        let mut m: usize = 0;
        assert(with_states(lent.states, woken.take(0), EntryState::Removed) =~= lent.states);
        while m < chosen.len()
            invariant
                m <= chosen.len(),
                b < HASH_TABLE_ENTRIES,
                self.table@.len() == HASH_TABLE_ENTRIES,
                k == b,
                woken == numbers(chosen@),
                forall|a: int|
                    0 <= a < chosen@.len() ==> (#[trigger] chosen@[a]).number() == woken[a],
                forall|a: int, c: int|
                    0 <= a < woken.len() && 0 <= c < woken.len() && a != c ==> woken[a] != woken[c],
                lent.is_valid(),
                forall|a: int|
                    0 <= a < woken.len() ==> (#[trigger] woken[a]) < lent.states.len()
                        && lent.states[woken[a] as int] is Loaned,
                self.table@[k]@.is_valid(),
                self.table@[k]@ == (LoanListView {
                    states: with_states(
                        lent.states,
                        woken.take(m as int),
                        EntryState::Removed,
                    ),
                    ..lent
                }),
                forall|c: int|
                    0 <= c < self.table@.len() && c != k ==> self.table@[c] == old(self).table@[c],
            decreases chosen.len() - m,
        {
            let entry = chosen[m];
            proof {
                assert(chosen@[m as int].number() == woken[m as int]);
                assert(!woken.take(m as int).contains(woken[m as int])) by {
                    if woken.take(m as int).contains(woken[m as int]) {
                        let a = choose|a: int|
                            0 <= a < m && woken.take(m as int)[a] == woken[m as int];
                        assert(woken[a] != woken[m as int]);
                    }
                }
            }
            let wake_owner = self.table[b].end_loan(entry);
            proof {
                let now = woken.take(m + 1);
                let states = self.table@[k]@.states;
                assert forall|i: int| 0 <= i < lent.states.len() implies #[trigger] states[i]
                    == with_states(lent.states, now, EntryState::Removed)[i] by {
                    if woken.take(m as int).contains(i as usize) {
                        let a = choose|a: int|
                            0 <= a < m && woken.take(m as int)[a] == i as usize;
                        assert(now[a] == i as usize);
                    }
                    if now.contains(i as usize) && i != woken[m as int] {
                        let a = choose|a: int| 0 <= a < now.len() && now[a] == i as usize;
                        assert(woken.take(m as int)[a] == i as usize);
                    }
                    assert(now[m as int] == woken[m as int]);
                }
                assert(states =~= with_states(lent.states, now, EntryState::Removed));
            }
            m = m + 1;
        }
        proof {
            assert(woken.take(m as int) =~= woken);
            let after = self.table@[k]@;
            assert(after.states =~= with_states(list.states, woken, EntryState::Removed));
            assert(after == without_waiters(list, woken));
            assert(self@ =~= before.update(k, after));
            assert(is_waiter_list(after, k)) by {
                assert forall|i: int| 0 <= i < after.states.len() implies #[trigger] after.states[i]
                    is Inserted || after.states[i] is Removed by {
                    assert(list.states[i] is Inserted || list.states[i] is Removed);
                }
            }
            lemma_one_list_changed(before, self@, k);
        }
        Ok(threads)
    }
}

/// What beginning to wait on an address does.
pub open spec fn waits_on(
    before: Seq<LoanListView<FutexEntry>>,
    addr: usize,
    bitset: Option<u32>,
    thread: usize,
    after: Seq<LoanListView<FutexEntry>>,
    r: Result<FutexWaiter, FutexError>,
) -> bool {
    if addr % 4 != 0 {
        r is Err && r->Err_0 == FutexError::NotAligned && after == before
    } else {
        let list = before[bucket_of(addr)];
        &&& r is Ok
        &&& r->Ok_0.bucket_index() == bucket_of(addr)
        &&& r->Ok_0.number() == list.next_number()
        &&& after == before.update(
            bucket_of(addr),
            list.inserted(FutexEntry { addr, thread, bitset: bits_of(bitset) }),
        )
        &&& is_waiter(after, r->Ok_0)
    }
}

/// What waking waiters on an address does.
pub open spec fn wakes_on(
    before: Seq<LoanListView<FutexEntry>>,
    addr: usize,
    limit: u32,
    bitset: Option<u32>,
    after: Seq<LoanListView<FutexEntry>>,
    r: Result<Vec<usize>, FutexError>,
) -> bool {
    if addr % 4 != 0 {
        r is Err && r->Err_0 == FutexError::NotAligned && after == before
    } else {
        let list = before[bucket_of(addr)];
        let woken = woken_waiters(list, addr, bits_of(bitset), limit);
        &&& r is Ok
        &&& r->Ok_0@ == woken.map_values(|i: usize| list.values[i as int].thread)
        &&& after == before.update(bucket_of(addr), without_waiters(list, woken))
    }
}

/// What comes of the value of the futex word, once the waiter is on its list.
pub open spec fn checks_value(
    before: Seq<LoanListView<FutexEntry>>,
    waiter: FutexWaiter,
    value: Option<u32>,
    expected_value: u32,
    after: Seq<LoanListView<FutexEntry>>,
    r: Result<(), FutexError>,
) -> bool {
    &&& r == match value {
        None => Err(FutexError::Fault),
        Some(v) => if v == expected_value {
            Ok(())
        } else {
            Err(FutexError::ImmediatelyWokenBecauseValueMismatch)
        },
    }
    &&& after == if r is Ok {
        before
    } else {
        forgotten(before, waiter)
    }
}

/// Whether a waiter has been woken.
pub open spec fn has_been_woken(
    lists: Seq<LoanListView<FutexEntry>>,
    waiter: FutexWaiter,
) -> bool {
    !(lists[waiter.bucket_index()].states[waiter.number()] is Inserted)
}

/// What a wait came to.
pub open spec fn wait_outcome(error: Option<WaitError>) -> Result<(), FutexError> {
    match error {
        Some(e) => Err(FutexError::WaitError(e)),
        None => Ok(()),
    }
}

/// Whether a handle leads to a waiter.
pub open spec fn is_waiter(lists: Seq<LoanListView<FutexEntry>>, waiter: FutexWaiter) -> bool {
    &&& 0 <= waiter.bucket_index() < lists.len()
    &&& 0 <= waiter.number() < lists[waiter.bucket_index()].states.len()
    &&& lists[waiter.bucket_index()].is_valid()
    &&& lists[waiter.bucket_index()].states[waiter.number()] is Inserted
        || lists[waiter.bucket_index()].states[waiter.number()] is Removed
    &&& !lists[waiter.bucket_index()].free.contains(waiter.number() as usize)
}

/// The lists of waiters after one has been taken off its list, if it was still on it, and its handle
/// given up.
pub open spec fn forgotten(lists: Seq<LoanListView<FutexEntry>>, waiter: FutexWaiter) -> Seq<
    LoanListView<FutexEntry>,
> {
    let b = waiter.bucket_index();
    let n = waiter.number();
    lists.update(
        b,
        LoanListView {
            values: lists[b].values,
            states: lists[b].states.update(n, EntryState::Removed),
            listed: if lists[b].states[n] is Inserted {
                lists[b].listed.filter(is_not_in(seq![n as usize]))
            } else {
                lists[b].listed
            },
            free: lists[b].free.push(n as usize),
        },
    )
}

proof fn lemma_one_list_changed(
    before: Seq<LoanListView<FutexEntry>>,
    after: Seq<LoanListView<FutexEntry>>,
    b: int,
)
    requires
        are_waiter_lists(before),
        0 <= b < before.len(),
        after.len() == before.len(),
        is_waiter_list(after[b], b),
        forall|c: int| 0 <= c < before.len() && c != b ==> #[trigger] after[c] == before[c],
    ensures
        are_waiter_lists(after),
{
    assert forall|c: int| 0 <= c < after.len() implies is_waiter_list(#[trigger] after[c], c) by {
        if c != b {
            assert(is_waiter_list(before[c], c));
        }
    }
}

/// Filtering a prefix gives a prefix of the filtered list.
proof fn lemma_filter_prefix(s: Seq<usize>, keep: spec_fn(usize) -> bool, n: int)
    requires
        0 <= n <= s.len(),
    ensures
        s.take(n).filter(keep).len() <= s.filter(keep).len(),
        s.take(n).filter(keep) == s.filter(keep).take(s.take(n).filter(keep).len() as int),
    decreases s.len() - n,
{
    reveal(Seq::filter);
    if n == s.len() {
        assert(s.take(n) =~= s);
        assert(s.filter(keep).take(s.filter(keep).len() as int) =~= s.filter(keep));
    } else {
        lemma_filter_prefix(s, keep, n + 1);
        assert(s.take(n + 1).drop_last() =~= s.take(n));
        let shorter = s.take(n).filter(keep);
        let longer = s.take(n + 1).filter(keep);
        assert(longer.take(shorter.len() as int) =~= shorter);
        assert(s.filter(keep).take(longer.len() as int).take(shorter.len() as int) =~= s.filter(
            keep,
        ).take(shorter.len() as int));
    }
}

/// At most as many waiters are woken as asked for, and only such that wait on the address with a
/// bit in common.
pub proof fn lemma_wake_is_limited(
    list: LoanListView<FutexEntry>,
    addr: usize,
    bits: u32,
    limit: u32,
)
    ensures
        woken_waiters(list, addr, bits, limit).len() <= limit,
        forall|k: int|
            0 <= k < woken_waiters(list, addr, bits, limit).len() ==> {
                let i = #[trigger] woken_waiters(list, addr, bits, limit)[k];
                list.listed.contains(i) && list.values[i as int].addr == addr
                    && list.values[i as int].bitset & bits != 0
            },
{
    let eligible = is_woken_by(list, addr, bits);
    lemma_filtered(list.listed, eligible);
    let full = list.listed.filter(eligible);
    assert forall|k: int| 0 <= k < woken_waiters(list, addr, bits, limit).len() implies ({
        let i = #[trigger] woken_waiters(list, addr, bits, limit)[k];
        list.listed.contains(i) && list.values[i as int].addr == addr
            && list.values[i as int].bitset & bits != 0
    }) by {
        assert(woken_waiters(list, addr, bits, limit)[k] == full[k]);
        assert(full.contains(full[k]));
    }
}

/// A wake with a limit that is large enough leaves no waiter with a bit in common waiting on the
/// address.
pub proof fn lemma_wake_all(list: LoanListView<FutexEntry>, addr: usize, bits: u32, limit: u32, i: usize)
    requires
        list.listed.len() <= limit,
        list.listed.contains(i),
        list.values[i as int].addr == addr,
        list.values[i as int].bitset & bits != 0,
    ensures
        woken_waiters(list, addr, bits, limit).contains(i),
        !without_waiters(list, woken_waiters(list, addr, bits, limit)).listed.contains(i),
{
    let eligible = is_woken_by(list, addr, bits);
    let full = list.listed.filter(eligible);
    let woken = woken_waiters(list, addr, bits, limit);
    lemma_filtered(list.listed, eligible);
    lemma_filter_is_no_longer(list.listed, eligible);
    assert(woken =~= full);
    lemma_filtered(list.listed, is_not_in(woken));
}

/// A waiter is done waiting once it has been woken, and the others go on waiting.
pub proof fn lemma_woken_are_done(
    list: LoanListView<FutexEntry>,
    addr: usize,
    bits: u32,
    limit: u32,
    i: usize,
)
    requires
        list.is_valid(),
        list.listed.contains(i),
    ensures
        ({
            let woken = woken_waiters(list, addr, bits, limit);
            let after = without_waiters(list, woken);
            &&& woken.contains(i) ==> after.states[i as int] is Removed && !after.listed.contains(i)
            &&& !woken.contains(i) ==> after.states[i as int] is Inserted && after.listed.contains(
                i,
            )
        }),
{
    let woken = woken_waiters(list, addr, bits, limit);
    lemma_filtered(list.listed, is_not_in(woken));
    let k = choose|k: int| 0 <= k < list.listed.len() && list.listed[k] == i;
    assert(list.listed[k] < list.states.len());
    assert(list.states[i as int] == EntryState::Inserted);
}

proof fn lemma_filter_is_no_longer(s: Seq<usize>, keep: spec_fn(usize) -> bool)
    ensures
        s.filter(keep).len() <= s.len(),
    decreases s.len(),
{
    reveal(Seq::filter);
    if s.len() > 0 {
        lemma_filter_is_no_longer(s.drop_last(), keep);
    }
}

} // verus!
