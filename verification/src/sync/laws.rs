//! What holds of futexes.
use crate::event::wait::WaitError;
use crate::net::ring::smaller;
use crate::sync::futex::{
    are_waiter_lists, bits_of, bucket_of, checks_value, has_been_woken, is_waiter, is_waiter_list,
    is_woken_by, wait_outcome, waits_on, wakes_on, woken_waiters, FutexEntry, FutexError,
    FutexWaiter,
};
use crate::utilities::loan_list::{is_not_in, lemma_filtered, EntryState, LoanListView};
use vstd::prelude::*;

verus! {

/// As many waiters are woken as asked for, while there are enough: if one with a bit in common goes
/// on waiting on the address, the limit was reached.
pub proof fn lemma_wake_reaches_limit(
    list: LoanListView<FutexEntry>,
    addr: usize,
    bits: u32,
    limit: u32,
    i: usize,
)
    requires
        list.listed.contains(i),
        list.values[i as int].addr == addr,
        list.values[i as int].bitset & bits != 0,
        !woken_waiters(list, addr, bits, limit).contains(i),
    ensures
        woken_waiters(list, addr, bits, limit).len() == limit,
{
    let eligible = is_woken_by(list, addr, bits);
    let full = list.listed.filter(eligible);
    lemma_filtered(list.listed, eligible);
    assert(full.contains(i));
    if full.len() <= limit {
        assert(woken_waiters(list, addr, bits, limit) =~= full);
    }
}

proof fn lemma_filtered_in_order(
    s: Seq<usize>,
    keep: spec_fn(usize) -> bool,
    n: int,
    a: int,
    b: int,
)
    requires
        s.no_duplicates(),
        0 <= a < b < s.len(),
        keep(s[a]),
        0 <= n <= s.filter(keep).len(),
        s.filter(keep).take(n).contains(s[b]),
    ensures
        s.filter(keep).take(n).contains(s[a]),
    decreases s.len(),
{
    reveal(Seq::filter);
    let head = s.drop_last();
    let fewer = head.filter(keep);
    let all = s.filter(keep);
    lemma_filtered(s, keep);
    lemma_filtered(head, keep);
    let kb = choose|k: int| 0 <= k < all.take(n).len() && all.take(n)[k] == s[b];
    assert(all[kb] == s[b]);
    assert(head[a] == s[a]);
    assert(head.contains(s[a]));
    if b == s.len() - 1 {
        assert(fewer.contains(s[a]));
        let ka = choose|k: int| 0 <= k < fewer.len() && fewer[k] == s[a];
        if kb < fewer.len() {
            assert(fewer[kb] == s[b]);
            assert(fewer.contains(s[b]));
            assert(head.contains(s[b]));
            let j = choose|j: int| 0 <= j < head.len() && head[j] == s[b];
            assert(s[j] == s[b]);
        }
        assert(all.take(n)[ka] == s[a]);
    } else {
        assert(head.no_duplicates());
        assert(head[b] == s[b]);
        let m = if n <= fewer.len() {
            n
        } else {
            fewer.len() as int
        };
        if kb >= fewer.len() {
            assert(all[kb] == s.last());
            assert(s[s.len() - 1] == s[b]);
        }
        assert(fewer[kb] == s[b]);
        assert(fewer.take(m)[kb] == s[b]);
        lemma_filtered_in_order(head, keep, m, a, b);
        let ka = choose|k: int| 0 <= k < fewer.take(m).len() && fewer.take(m)[k] == s[a];
        assert(all.take(n)[ka] == s[a]);
    }
}

/// Waiters are woken in the order in which they began to wait: none is woken before one that began
/// earlier and could be woken too.
pub proof fn lemma_first_waiters_are_woken(
    list: LoanListView<FutexEntry>,
    addr: usize,
    bits: u32,
    limit: u32,
    a: int,
    b: int,
)
    requires
        list.listed.no_duplicates(),
        0 <= a < b < list.listed.len(),
        list.values[list.listed[a] as int].addr == addr,
        list.values[list.listed[a] as int].bitset & bits != 0,
        woken_waiters(list, addr, bits, limit).contains(list.listed[b]),
    ensures
        woken_waiters(list, addr, bits, limit).contains(list.listed[a]),
{
    let eligible = is_woken_by(list, addr, bits);
    let full = list.listed.filter(eligible);
    let n = smaller(limit as nat, full.len()) as int;
    lemma_filtered_in_order(list.listed, eligible, n, a, b);
}

/// A thread that waits on an address is woken by a wake on the address that has a bit in common with
/// it and is not limited to fewer than there are waiters. A wait or a wake without bits is for all
/// bits.
pub proof fn lemma_waiting_thread_is_woken(
    before: Seq<LoanListView<FutexEntry>>,
    addr: usize,
    bitset: Option<u32>,
    thread: usize,
    waiting: Seq<LoanListView<FutexEntry>>,
    w: Result<FutexWaiter, FutexError>,
    limit: u32,
    bits: Option<u32>,
    after: Seq<LoanListView<FutexEntry>>,
    r: Result<Vec<usize>, FutexError>,
)
    requires
        are_waiter_lists(before),
        addr % 4 == 0,
        waits_on(before, addr, bitset, thread, waiting, w),
        wakes_on(waiting, addr, limit, bits, after, r),
        before[bucket_of(addr)].values.len() < usize::MAX,
        waiting[bucket_of(addr)].listed.len() <= limit,
        bitset is Some ==> bitset->Some_0 != 0,
        bits is Some ==> bits->Some_0 != 0,
        bitset is Some && bits is Some ==> bitset->Some_0 & bits->Some_0 != 0,
    ensures
        w is Ok,
        r is Ok,
        r->Ok_0@.contains(thread),
        after[bucket_of(addr)].states[w->Ok_0.number()] is Removed,
{
    let b = bucket_of(addr);
    let list = before[b];
    assert(0 <= b < before.len()) by {
        assert((addr / 4) as int % 256 >= 0);
    }
    assert(is_waiter_list(list, b));
    let n = list.next_number();
    let now = waiting[b];
    assert(now == list.inserted(FutexEntry { addr, thread, bitset: bits_of(bitset) }));
    assert(now.listed[now.listed.len() - 1] == n as usize);
    if list.free.len() > 0 {
        assert(list.free[list.free.len() - 1] < list.states.len());
    }
    assert(now.values[n] == (FutexEntry { addr, thread, bitset: bits_of(bitset) }));
    let own = bits_of(bitset);
    let theirs = bits_of(bits);
    assert((own == 0xFFFF_FFFF || theirs == 0xFFFF_FFFF) && own != 0 && theirs != 0 ==> own & theirs
        != 0) by (bit_vector);
    let woken = woken_waiters(now, addr, theirs, limit);
    assert(now.listed.contains(n as usize));
    crate::sync::futex::lemma_wake_all(now, addr, theirs, limit, n as usize);
    let k = choose|k: int| 0 <= k < woken.len() && woken[k] == n as usize;
    assert(r->Ok_0@[k] == thread);
}

/// Waiters on another address go on waiting, as do those with no bit in common.
pub proof fn lemma_other_waiters_go_on(
    before: Seq<LoanListView<FutexEntry>>,
    addr: usize,
    limit: u32,
    bits: Option<u32>,
    after: Seq<LoanListView<FutexEntry>>,
    r: Result<Vec<usize>, FutexError>,
    b: int,
    i: usize,
)
    requires
        are_waiter_lists(before),
        wakes_on(before, addr, limit, bits, after, r),
        0 <= b < before.len(),
        before[b].listed.contains(i),
        before[b].values[i as int].addr != addr || before[b].values[i as int].bitset & bits_of(bits)
            == 0,
    ensures
        after[b].listed.contains(i),
        after[b].states[i as int] is Inserted,
{
    assert(is_waiter_list(before[b], b));
    if addr % 4 == 0 && b == bucket_of(addr) {
        let list = before[b];
        crate::sync::futex::lemma_wake_is_limited(list, addr, bits_of(bits), limit);
        let woken = woken_waiters(list, addr, bits_of(bits), limit);
        if woken.contains(i) {
            let k = choose|k: int| 0 <= k < woken.len() && woken[k] == i;
            assert(list.values[woken[k] as int].addr == addr);
        }
        crate::sync::futex::lemma_woken_are_done(list, addr, bits_of(bits), limit, i);
    } else {
        let k = choose|k: int| 0 <= k < before[b].listed.len() && before[b].listed[k] == i;
        assert(before[b].listed[k] < before[b].states.len());
        assert(before[b].states[i as int] == EntryState::Inserted);
    }
}

/// A waiter has been woken exactly if it is no longer on its list, and a wait succeeds exactly if
/// waiting did.
pub proof fn lemma_woken_waiters(
    lists: Seq<LoanListView<FutexEntry>>,
    waiter: FutexWaiter,
    error: Option<WaitError>,
)
    requires
        is_waiter(lists, waiter),
    ensures
        has_been_woken(lists, waiter) <==> !lists[waiter.bucket_index()].listed.contains(
            waiter.number() as usize,
        ),
        wait_outcome(error) is Ok <==> error is None,
        error is Some ==> wait_outcome(error)->Err_0 == FutexError::WaitError(error->Some_0),
{
    let list = lists[waiter.bucket_index()];
    let n = waiter.number();
    assert(list.states[n] == EntryState::Inserted <==> list.listed.contains(n as usize));
}

/// Futex words are four bytes and aligned to that: nothing waits or is woken elsewhere.
pub proof fn lemma_futexes_are_aligned(
    before: Seq<LoanListView<FutexEntry>>,
    addr: usize,
    bitset: Option<u32>,
    thread: usize,
    waiting: Seq<LoanListView<FutexEntry>>,
    w: Result<FutexWaiter, FutexError>,
    limit: u32,
    after: Seq<LoanListView<FutexEntry>>,
    r: Result<Vec<usize>, FutexError>,
)
    requires
        waits_on(before, addr, bitset, thread, waiting, w),
        wakes_on(before, addr, limit, bitset, after, r),
    ensures
        w is Ok <==> addr % 4 == 0,
        r is Ok <==> addr % 4 == 0,
        w is Err ==> w->Err_0 == FutexError::NotAligned && waiting == before,
        r is Err ==> r->Err_0 == FutexError::NotAligned && after == before,
{
}

/// A wait goes on exactly if the word has the expected value. Otherwise it ends, and the waiter is
/// no longer on its list: with a fault where the word could not be read.
pub proof fn lemma_expected_value_is_checked(
    before: Seq<LoanListView<FutexEntry>>,
    waiter: FutexWaiter,
    value: Option<u32>,
    expected: u32,
    after: Seq<LoanListView<FutexEntry>>,
    r: Result<(), FutexError>,
)
    requires
        are_waiter_lists(before),
        is_waiter(before, waiter),
        checks_value(before, waiter, value, expected, after, r),
    ensures
        r is Ok <==> value == Some(expected),
        r is Ok ==> after == before,
        value is None ==> r == Err::<(), FutexError>(FutexError::Fault),
        value is Some && value->Some_0 != expected ==> r == Err::<(), FutexError>(
            FutexError::ImmediatelyWokenBecauseValueMismatch,
        ),
        r is Err ==> !after[waiter.bucket_index()].listed.contains(waiter.number() as usize)
            && after[waiter.bucket_index()].states[waiter.number()] is Removed,
{
    let b = waiter.bucket_index();
    let n = waiter.number();
    let list = before[b];
    assert(list.states[n] == EntryState::Inserted <==> list.listed.contains(n as usize));
    lemma_filtered(list.listed, is_not_in(seq![n as usize]));
    assert(seq![n as usize].contains(n as usize)) by {
        assert(seq![n as usize][0] == n as usize);
    }
}

} // verus!
