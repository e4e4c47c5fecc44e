//! What holds of lists whose entries are lent.
use crate::utilities::loan_list::{
    await_step, ends_loan, extracted, is_extraction, is_not_in, lemma_filtered, loan_end,
    removes_entry, with_states, EntryState, Extract, LoanListView, RemoveOutcome,
};
use vstd::prelude::*;

verus! {

/// A new entry is the last on the list, with its value, and the entries that were listed are still
/// so, in the same order and with their values.
pub proof fn lemma_inserted_is_last<T>(list: LoanListView<T>, value: T, k: int)
    requires
        list.is_valid(),
        0 <= k < list.listed.len(),
        list.values.len() < usize::MAX,
    ensures
        ({
            let after = list.inserted(value);
            let n = list.next_number();
            &&& after.listed.len() == list.listed.len() + 1
            &&& after.listed.last() == n
            &&& after.values[n] == value
            &&& after.states[n] is Inserted
            &&& after.listed[k] == list.listed[k]
            &&& after.values[list.listed[k] as int] == list.values[list.listed[k] as int]
            &&& after.states[list.listed[k] as int] is Inserted
            &&& !list.listed.contains(n as usize)
        }),
{
    let n = list.next_number();
    assert(list.listed.contains(list.listed[k]));
    let i = list.listed[k];
    assert(list.states[i as int] == EntryState::Inserted);
    if list.free.len() > 0 {
        assert(list.states[list.free[list.free.len() - 1] as int] == EntryState::Removed);
        assert(list.states[n] == EntryState::Removed);
    }
    if list.listed.contains(n as usize) {
        let j = choose|j: int| 0 <= j < list.listed.len() && list.listed[j] == n as usize;
        assert(list.listed[j] < list.states.len());
    }
}

/// The owner of an entry that is on the list takes it off; of one that is on loan it has to wait for
/// the end of the loan, and is told so. Other entries stay on the list.
pub proof fn lemma_owner_removes<T>(
    list: LoanListView<T>,
    n: int,
    after: LoanListView<T>,
    r: RemoveOutcome,
    other: usize,
)
    requires
        list.is_valid(),
        0 <= n < list.states.len(),
        removes_entry(list, n, after, r),
    ensures
        r is Removed <==> list.states[n] is Inserted || list.states[n] is Removed,
        r is Removed ==> after.states[n] is Removed && !after.listed.contains(n as usize),
        r is OnLoan ==> !(after.states[n] is Inserted) && !(after.states[n] is Loaned),
        list.states[n] is Loaned ==> after.states[n] is LoanedOwnerWaiting,
        other != n ==> after.listed.contains(other) == list.listed.contains(other),
        other != n && other < list.states.len() ==> after.states[other as int]
            == list.states[other as int],
        after.values == list.values,
{
    lemma_filtered(list.listed, is_not_in(seq![n as usize]));
    assert(seq![n as usize].contains(other) <==> other == n) by {
        assert(seq![n as usize][0] == n as usize);
    }
    assert(seq![n as usize].contains(n as usize)) by {
        assert(seq![n as usize][0] == n as usize);
    }
    assert(list.states[n] == EntryState::Inserted <==> list.listed.contains(n as usize));
}

/// At the end of a loan the entry is removed, and its owner is woken exactly if it waits.
pub proof fn lemma_loan_ends<T>(
    list: LoanListView<T>,
    n: int,
    after: LoanListView<T>,
    woken: bool,
)
    requires
        0 <= n < list.states.len(),
        ends_loan(list, n, after, woken),
    ensures
        after.states[n] is Removed,
        woken <==> list.states[n] is LoanedOwnerWaiting,
        after.listed == list.listed,
        after.values == list.values,
        forall|i: int| 0 <= i < list.states.len() && i != n ==> #[trigger] after.states[i]
            == list.states[i],
{
}

/// An owner that asked for an entry on loan is woken when the loan ends, and finds it removed.
pub proof fn lemma_waiting_owner_finds_it_removed<T>(
    list: LoanListView<T>,
    n: int,
    asked: LoanListView<T>,
    r: RemoveOutcome,
    after: LoanListView<T>,
    woken: bool,
)
    requires
        0 <= n < list.states.len(),
        list.states[n] is Loaned,
        removes_entry(list, n, asked, r),
        ends_loan(asked, n, after, woken),
    ensures
        r is OnLoan,
        woken,
        after.states[n] is Removed,
        await_step(asked.states[n]) is Block,
        await_step(after.states[n]) is Finished,
        loan_end(asked.states[n]).1,
{
}

/// Entries that are lent, or removed, have just that state, and the others keep theirs.
pub proof fn lemma_states_of_lent(
    states: Seq<EntryState>,
    ids: Seq<usize>,
    state: EntryState,
    i: usize,
)
    requires
        i < states.len(),
    ensures
        with_states(states, ids, state).len() == states.len(),
        ids.contains(i) ==> with_states(states, ids, state)[i as int] == state,
        !ids.contains(i) ==> with_states(states, ids, state)[i as int] == states[i as int],
{
}

/// Entries are looked at one after the other from the first on, and each as the predicate says of its
/// value. None is looked at after it was said to stop, and all are if that was never said.
pub proof fn lemma_extraction_stops<T, F: Fn(&T) -> Extract>(
    list: LoanListView<T>,
    f: F,
    steps: Seq<Extract>,
    j: int,
)
    requires
        is_extraction(list, f, steps),
        0 <= j < steps.len(),
    ensures
        steps.len() <= list.listed.len(),
        f.ensures((&list.values[list.listed[j] as int],), steps[j]),
        steps[j] is KeepAndStop || steps[j] is RemoveAndStop ==> j == steps.len() - 1,
        j == steps.len() - 1 && !(steps[j] is KeepAndStop) && !(steps[j] is RemoveAndStop)
            ==> steps.len() == list.listed.len(),
{
    if j < steps.len() - 1 {
        assert(!steps[j].stops());
    }
}

/// Of the entries that were looked at, exactly those are taken out of which that was said.
pub proof fn lemma_extracted_as_said(listed: Seq<usize>, steps: Seq<Extract>, k: int)
    requires
        listed.no_duplicates(),
        steps.len() <= listed.len(),
        0 <= k < listed.len(),
    ensures
        extracted(listed, steps).contains(listed[k]) <==> k < steps.len() && (
        steps[k] is Remove || steps[k] is RemoveAndStop),
    decreases steps.len(),
{
    if steps.len() > 0 {
        let fewer = steps.drop_last();
        let before = extracted(listed, fewer);
        let all = extracted(listed, steps);
        let last = steps.len() - 1;
        lemma_extracted_as_said(listed, fewer, k);
        if before.contains(listed[k]) {
            let j = choose|j: int| 0 <= j < before.len() && before[j] == listed[k];
            assert(all[j] == listed[k]);
        }
        if all.contains(listed[k]) {
            let j = choose|j: int| 0 <= j < all.len() && all[j] == listed[k];
            if j < before.len() {
                assert(before[j] == listed[k]);
            } else {
                assert(listed[last] == listed[k]);
            }
        }
        if k == last && steps.last().removes() {
            assert(all[all.len() - 1] == listed[k]);
        }
    } else {
        assert(extracted(listed, steps).len() == 0);
    }
}

} // verus!
