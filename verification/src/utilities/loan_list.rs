//! A list with loan semantics.
//!
//! Entries can be removed from the list by a third party (not the owner) via
//! [`LoanList::extract_if`]. The remover gets temporary shared access to the entry (a "loan"), and
//! if the owner wants to remove the entry in the meantime, it has to wait until the loan ends.
//!
//! This design is particularly useful for managing wait queues.
use vstd::prelude::*;

verus! {

/// The state of an entry.
#[derive(Clone, Copy, Debug, PartialEq, Eq, Structural)]
pub enum EntryState {
    /// The entry has been inserted into the list.
    Inserted,
    /// The entry has been removed from the list and is still on loan.
    Loaned,
    /// The entry has been removed from the list and is still on loan, and the owner is waiting
    /// for it to be returned.
    LoanedOwnerWaiting,
    /// The entry has been removed from the list and is no longer loaned out, the remover still
    /// needs access to the entry just to signal the owner.
    RemovedWaking,
    /// The entry has been removed from the list and is no longer loaned out.
    Removed,
}

impl EntryState {
    /// The word that the state is kept in.
    pub open spec fn word_spec(self) -> u32 {
        match self {
            EntryState::Inserted => 0,
            EntryState::Loaned => 1,
            EntryState::LoanedOwnerWaiting => 2,
            EntryState::RemovedWaking => 3,
            EntryState::Removed => 4,
        }
    }

    /// The word that the state is kept in.
    pub fn word(self) -> (r: u32)
        ensures
            r == self.word_spec(),
    {
        match self {
            EntryState::Inserted => 0,
            EntryState::Loaned => 1,
            EntryState::LoanedOwnerWaiting => 2,
            EntryState::RemovedWaking => 3,
            EntryState::Removed => 4,
        }
    }

    /// The state that a word stands for.
    pub fn from_word(word: u32) -> (r: Option<EntryState>)
        ensures
            r is Some <==> word <= 4,
            r is Some ==> r->Some_0.word_spec() == word,
    {
        if word == 0 {
            Some(EntryState::Inserted)
        } else if word == 1 {
            Some(EntryState::Loaned)
        } else if word == 2 {
            Some(EntryState::LoanedOwnerWaiting)
        } else if word == 3 {
            Some(EntryState::RemovedWaking)
        } else if word == 4 {
            Some(EntryState::Removed)
        } else {
            None
        }
    }
}

/// What an owner that removes its entry is to do.
#[derive(Clone, Copy, Debug, PartialEq, Eq, Structural)]
pub enum OwnerStep {
    /// The entry is gone already.
    Finished,
    /// Lock the list and, if the entry is still on it, take it off.
    Unlink,
    /// Wait until the loan ends; this is the state to leave meanwhile.
    AwaitLoan(EntryState),
}

/// How an owner begins to remove its entry. It waits for one loan at most.
pub fn begin_remove(state: EntryState) -> (r: OwnerStep)
    requires
        state != EntryState::LoanedOwnerWaiting,
    ensures
        r == match state {
            EntryState::Removed => OwnerStep::Finished,
            EntryState::Inserted => OwnerStep::Unlink,
            EntryState::Loaned => OwnerStep::AwaitLoan(EntryState::LoanedOwnerWaiting),
            _ => OwnerStep::AwaitLoan(state),
        },
{
    match state {
        EntryState::Removed => OwnerStep::Finished,
        EntryState::Inserted => OwnerStep::Unlink,
        EntryState::Loaned => OwnerStep::AwaitLoan(EntryState::LoanedOwnerWaiting),
        _ => OwnerStep::AwaitLoan(state),
    }
}

/// What an owner that waits for a loan to end is to do.
#[derive(Clone, Copy, Debug, PartialEq, Eq, Structural)]
pub enum AwaitStep {
    /// The loan has ended.
    Finished,
    /// Block while the state is this one.
    Block,
    /// Look again: the remover is about to finish.
    Spin,
}

/// How an owner goes on waiting for a loan to end.
pub open spec fn await_step(state: EntryState) -> AwaitStep {
    match state {
        EntryState::Removed => AwaitStep::Finished,
        EntryState::LoanedOwnerWaiting => AwaitStep::Block,
        _ => AwaitStep::Spin,
    }
}

/// How an owner goes on waiting for a loan to end.
pub fn await_loan(state: EntryState) -> (r: AwaitStep)
    requires
        state == EntryState::Removed || state == EntryState::LoanedOwnerWaiting || state
            == EntryState::RemovedWaking,
    ensures
        r == await_step(state),
{
    match state {
        EntryState::Removed => AwaitStep::Finished,
        EntryState::LoanedOwnerWaiting => AwaitStep::Block,
        _ => AwaitStep::Spin,
    }
}

/// How a remover ends a loan: the state to leave, and whether the owner has to be woken. An owner
/// that has to be woken still needs the entry until then.
pub open spec fn loan_end(state: EntryState) -> (EntryState, bool) {
    match state {
        EntryState::LoanedOwnerWaiting => (EntryState::RemovedWaking, true),
        _ => (EntryState::Removed, false),
    }
}

/// How a remover ends a loan: the state to leave, and whether the owner has to be woken, after
/// which the entry is removed.
pub fn end_loan_of(state: EntryState) -> (r: (EntryState, bool))
    requires
        state == EntryState::Loaned || state == EntryState::LoanedOwnerWaiting,
    ensures
        r == loan_end(state),
{
    match state {
        EntryState::LoanedOwnerWaiting => (EntryState::RemovedWaking, true),
        _ => (EntryState::Removed, false),
    }
}

/// The end of a loan wakes the owner exactly when the owner may have blocked, and an owner that
/// looks after the loan has ended does not block.
pub proof fn lemma_waiting_owner_is_woken(state: EntryState)
    requires
        state == EntryState::Loaned || state == EntryState::LoanedOwnerWaiting,
    ensures
        loan_end(state).1 <==> await_step(state) == AwaitStep::Block,
        await_step(loan_end(state).0) != AwaitStep::Block,
{
}

/// What to do with an entry, and whether to go on.
#[derive(Clone, Copy, Debug, PartialEq, Eq, Structural)]
pub enum Extract {
    Keep,
    Remove,
    KeepAndStop,
    RemoveAndStop,
}

impl Extract {
    /// Whether the entry is removed.
    pub open spec fn removes(self) -> bool {
        self is Remove || self is RemoveAndStop
    }

    /// Whether no further entry is looked at.
    pub open spec fn stops(self) -> bool {
        self is KeepAndStop || self is RemoveAndStop
    }
}

struct Node<T> {
    value: T,
    state: EntryState,
}

/// The value of a [`LoanList`].
#[verifier::reject_recursive_types(T)]
pub struct LoanListView<T> {
    /// The values of the entries, by number.
    pub values: Seq<T>,
    /// The states of the entries, by number.
    pub states: Seq<EntryState>,
    /// The entries on the list, in order.
    pub listed: Seq<usize>,
    /// The numbers that can be given to new entries, as nobody owns the old ones any more.
    pub free: Seq<usize>,
}

impl<T> LoanListView<T> {
    /// The entries on the list are those that are inserted, each once.
    pub open spec fn is_valid(self) -> bool {
        &&& self.states.len() == self.values.len()
        &&& self.values.len() <= usize::MAX
        &&& self.listed.no_duplicates()
        &&& forall|k: int|
            0 <= k < self.listed.len() ==> #[trigger] self.listed[k] < self.states.len()
        &&& forall|i: int|
            0 <= i < self.states.len() ==> (#[trigger] self.states[i] == EntryState::Inserted
                <==> self.listed.contains(i as usize))
        &&& self.free.no_duplicates()
        &&& forall|k: int|
            0 <= k < self.free.len() ==> (#[trigger] self.free[k]) < self.states.len()
                && self.states[self.free[k] as int] == EntryState::Removed
    }

    /// The number of the next entry.
    pub open spec fn next_number(self) -> int {
        if self.free.len() > 0 {
            self.free.last() as int
        } else {
            self.values.len() as int
        }
    }

    /// The list with one more entry at its end.
    pub open spec fn inserted(self, value: T) -> LoanListView<T> {
        let n = self.next_number();
        if self.free.len() > 0 {
            LoanListView {
                values: self.values.update(n, value),
                states: self.states.update(n, EntryState::Inserted),
                listed: self.listed.push(n as usize),
                free: self.free.drop_last(),
            }
        } else {
            LoanListView {
                values: self.values.push(value),
                states: self.states.push(EntryState::Inserted),
                listed: self.listed.push(n as usize),
                free: self.free,
            }
        }
    }
}

/// Whether a list does not hold a number.
pub open spec fn is_not_in(ids: Seq<usize>) -> spec_fn(usize) -> bool {
    |i: usize| !ids.contains(i)
}

/// The states with some of them changed to another.
pub open spec fn with_states(states: Seq<EntryState>, ids: Seq<usize>, state: EntryState) -> Seq<
    EntryState,
> {
    Seq::new(
        states.len(),
        |i: int|
            if ids.contains(i as usize) {
                state
            } else {
                states[i]
            },
    )
}

/// A handle to an entry of a [`LoanList`].
#[derive(Clone, Copy, Debug, PartialEq, Eq, Structural)]
pub struct LoanListEntry {
    index: usize,
}

impl LoanListEntry {
    /// The number of the entry.
    pub closed spec fn number(&self) -> int {
        self.index as int
    }
}

/// What removing an entry came to.
#[derive(Clone, Copy, Debug, PartialEq, Eq, Structural)]
pub enum RemoveOutcome {
    /// The entry is off the list and not on loan.
    Removed,
    /// The entry is on loan, and the owner has to wait for the loan to end.
    OnLoan,
}

/// What removing an entry for its owner does.
pub open spec fn removes_entry<T>(
    before: LoanListView<T>,
    n: int,
    after: LoanListView<T>,
    r: RemoveOutcome,
) -> bool {
    match before.states[n] {
        EntryState::Inserted => r == RemoveOutcome::Removed && after == (LoanListView {
            states: before.states.update(n, EntryState::Removed),
            listed: before.listed.filter(is_not_in(seq![n as usize])),
            ..before
        }),
        EntryState::Loaned => r == RemoveOutcome::OnLoan && after == (LoanListView {
            states: before.states.update(n, EntryState::LoanedOwnerWaiting),
            ..before
        }),
        EntryState::Removed => r == RemoveOutcome::Removed && after == before,
        _ => r == RemoveOutcome::OnLoan && after == before,
    }
}

/// What ending the loan of an entry does.
pub open spec fn ends_loan<T>(
    before: LoanListView<T>,
    n: int,
    after: LoanListView<T>,
    r: bool,
) -> bool {
    &&& r == (before.states[n] == EntryState::LoanedOwnerWaiting)
    &&& after == (LoanListView {
        states: before.states.update(n, EntryState::Removed),
        ..before
    })
}

/// A list with loan semantics.
pub struct LoanList<T> {
    nodes: Vec<Node<T>>,
    listed: Vec<usize>,
    free: Vec<usize>,
}

impl<T> View for LoanList<T> {
    type V = LoanListView<T>;

    closed spec fn view(&self) -> LoanListView<T> {
        LoanListView {
            values: self.nodes@.map_values(|n: Node<T>| n.value),
            states: self.nodes@.map_values(|n: Node<T>| n.state),
            listed: self.listed@,
            free: self.free@,
        }
    }
}

proof fn lemma_filter_of_prefix(s: Seq<usize>, keep: spec_fn(usize) -> bool, n: int)
    requires
        0 <= n < s.len(),
    ensures
        s.take(n + 1).filter(keep) == if keep(s[n]) {
            s.take(n).filter(keep).push(s[n])
        } else {
            s.take(n).filter(keep)
        },
{
    reveal(Seq::filter);
    assert(s.take(n + 1).drop_last() =~= s.take(n));
}

/// What a filtered list holds, in what was filtered.
pub proof fn lemma_filtered(s: Seq<usize>, keep: spec_fn(usize) -> bool)
    ensures
        forall|i: usize| #[trigger] s.filter(keep).contains(i) <==> s.contains(i) && keep(i),
        s.no_duplicates() ==> s.filter(keep).no_duplicates(),
    decreases s.len(),
{
    reveal(Seq::filter);
    if s.len() > 0 {
        let head = s.drop_last();
        let f = head.filter(keep);
        let all = s.filter(keep);
        lemma_filtered(head, keep);
        assert forall|i: usize| #[trigger] all.contains(i) <==> s.contains(i) && keep(i) by {
            if all.contains(i) {
                let k = choose|k: int| 0 <= k < all.len() && all[k] == i;
                if k < f.len() {
                    assert(f[k] == i);
                    assert(f.contains(i));
                    let j = choose|j: int| 0 <= j < head.len() && head[j] == i;
                    assert(s[j] == i);
                } else {
                    assert(s[s.len() - 1] == i);
                }
            }
            if s.contains(i) && keep(i) {
                let j = choose|j: int| 0 <= j < s.len() && s[j] == i;
                if j < head.len() {
                    assert(head[j] == i);
                    assert(head.contains(i));
                    assert(f.contains(i));
                    let k = choose|k: int| 0 <= k < f.len() && f[k] == i;
                    assert(all[k] == i);
                } else {
                    assert(all[all.len() - 1] == i);
                }
            }
        }
        if s.no_duplicates() {
            assert(head.no_duplicates());
            assert forall|a: int, b: int| 0 <= a < all.len() && 0 <= b < all.len() && a
                != b implies all[a] != all[b] by {
                let last = s.last();
                if keep(last) {
                    assert forall|k: int| 0 <= k < f.len() implies f[k] != last by {
                        assert(f.contains(f[k]));
                        assert(head.contains(f[k]));
                        let j = choose|j: int| 0 <= j < head.len() && head[j] == f[k];
                        assert(s[j] != s[s.len() - 1]);
                    }
                }
            }
        }
    }
}

fn holds(ids: &Vec<usize>, id: usize) -> (r: bool)
    ensures
        r == ids@.contains(id),
{
    let mut k: usize = 0;
    while k < ids.len()
        invariant
            k <= ids.len(),
            forall|j: int| 0 <= j < k ==> ids@[j] != id,
        decreases ids.len() - k,
    {
        if ids[k] == id {
            return true;
        }
        k = k + 1;
    }
    false
}

impl<T> LoanList<T> {
    /// Creates a new empty list.
    pub fn new() -> (r: Self)
        ensures
            r@.is_valid(),
            r@.values.len() == 0,
            r@.listed.len() == 0,
            r@.free.len() == 0,
    {
        LoanList { nodes: Vec::new(), listed: Vec::new(), free: Vec::new() }
    }

    /// Inserts a new entry at the end of the list.
    pub fn insert(&mut self, value: T) -> (r: LoanListEntry)
        requires
            old(self)@.is_valid(),
        ensures
            final(self)@.is_valid(),
            r.number() == old(self)@.next_number(),
            final(self)@ == old(self)@.inserted(value),
    {
        let ghost before = self@;
        let index: usize = match self.free.pop() {
            Some(index) => {
                assert(before.free[before.free.len() - 1] == index);
                self.nodes[index] = Node { value, state: EntryState::Inserted };
                index
            },
            None => {
                let index: usize = self.nodes.len();
                self.nodes.push(Node { value, state: EntryState::Inserted });
                index
            },
        };
        self.listed.push(index);
        let total: usize = self.nodes.len();
        proof {
            let after = self@;
            assert(after.values =~= before.inserted(value).values);
            assert(after.states =~= before.inserted(value).states);
            assert(after.free =~= before.inserted(value).free);
            assert(!before.listed.contains(index)) by {
                if before.listed.contains(index) {
                    let k = choose|k: int| 0 <= k < before.listed.len() && before.listed[k] == index;
                    assert(before.listed[k] < before.states.len());
                    assert(before.states[index as int] == EntryState::Inserted);
                }
            }
            assert forall|i: int| 0 <= i < after.states.len() implies (#[trigger] after.states[i]
                == EntryState::Inserted <==> after.listed.contains(i as usize)) by {
                if i != index {
                    assert(after.states[i] == before.states[i]);
                    if before.listed.contains(i as usize) {
                        let k = choose|k: int|
                            0 <= k < before.listed.len() && before.listed[k] == i as usize;
                        assert(after.listed[k] == i as usize);
                    }
                    if after.listed.contains(i as usize) {
                        let k = choose|k: int|
                            0 <= k < after.listed.len() && after.listed[k] == i as usize;
                        assert(before.listed[k] == i as usize);
                    }
                } else {
                    assert(after.listed[after.listed.len() - 1] == i as usize);
                }
            }
            assert forall|k: int| 0 <= k < after.free.len() implies (#[trigger] after.free[k])
                < after.states.len() && after.states[after.free[k] as int] == EntryState::Removed by {
                assert(after.free[k] == before.free[k]);
                assert(before.free[k] != index);
            }
        }
        LoanListEntry { index }
    }

    /// Gives up an entry that has been removed. Its handle is not to be used any more.
    pub fn release(&mut self, entry: LoanListEntry)
        requires
            old(self)@.is_valid(),
            0 <= entry.number() < old(self)@.states.len(),
            old(self)@.states[entry.number()] == EntryState::Removed,
            !old(self)@.free.contains(entry.number() as usize),
        ensures
            final(self)@.is_valid(),
            final(self)@ == (LoanListView {
                free: old(self)@.free.push(entry.number() as usize),
                ..old(self)@
            }),
    {
        let ghost before = self@;
        self.free.push(entry.index);
        proof {
            let after = self@;
            assert forall|a: int, b: int| 0 <= a < after.free.len() && 0 <= b < after.free.len()
                && a != b implies after.free[a] != after.free[b] by {
                if a < before.free.len() {
                    assert(before.free.contains(before.free[a]));
                }
                if b < before.free.len() {
                    assert(before.free.contains(before.free[b]));
                }
            }
            assert forall|k: int| 0 <= k < after.free.len() implies (#[trigger] after.free[k])
                < after.states.len() && after.states[after.free[k] as int] == EntryState::Removed by {
                if k < before.free.len() {
                    assert(after.free[k] == before.free[k]);
                }
            }
        }
    }

    /// Returns a reference to the value of an entry.
    pub fn get(&self, entry: LoanListEntry) -> (r: &T)
        requires
            0 <= entry.number() < self@.values.len(),
        ensures
            *r == self@.values[entry.number()],
    {
        &self.nodes[entry.index].value
    }

    /// Returns the state of an entry.
    pub fn state(&self, entry: LoanListEntry) -> (r: EntryState)
        requires
            0 <= entry.number() < self@.states.len(),
        ensures
            r == self@.states[entry.number()],
    {
        self.nodes[entry.index].state
    }

    /// The entries on the list, in order.
    pub fn entries(&self) -> (r: Vec<LoanListEntry>)
        ensures
            r@.len() == self@.listed.len(),
            forall|k: int|
                0 <= k < r@.len() ==> (#[trigger] r@[k]).number() == self@.listed[k],
    {
        let mut out: Vec<LoanListEntry> = Vec::new();
        let mut k: usize = 0;
        while k < self.listed.len()
            invariant
                k <= self.listed.len(),
                out.len() == k,
                forall|j: int|
                    0 <= j < k ==> (#[trigger] out@[j]).number() == self@.listed[j],
            decreases self.listed.len() - k,
        {
            out.push(LoanListEntry { index: self.listed[k] });
            k = k + 1;
        }
        out
    }

    /// Take some entries off the list and put them in a state.
    fn take_off(&mut self, ids: &Vec<usize>, state: EntryState)
        requires
            old(self)@.is_valid(),
            state != EntryState::Inserted,
            forall|k: int| 0 <= k < ids@.len() ==> old(self)@.listed.contains(#[trigger] ids@[k]),
        ensures
            final(self)@.is_valid(),
            final(self)@.values == old(self)@.values,
            final(self)@.states == with_states(old(self)@.states, ids@, state),
            final(self)@.listed == old(self)@.listed.filter(is_not_in(ids@)),
            final(self)@.free == old(self)@.free,
    {
        let ghost before = self@;
        let ghost keep = is_not_in(ids@);
        let mut left: Vec<usize> = Vec::new();
        let mut k: usize = 0;
        proof {
            reveal(Seq::filter);
            assert(before.listed.take(0).filter(keep) =~= Seq::empty());
        }
        while k < self.listed.len()
            invariant
                k <= self.listed.len(),
                before == self@,
                keep == is_not_in(ids@),
                left@ == before.listed.take(k as int).filter(keep),
            decreases self.listed.len() - k,
        {
            let id: usize = self.listed[k];
            proof {
                lemma_filter_of_prefix(before.listed, keep, k as int);
            }
            if !holds(ids, id) {
                left.push(id);
            }
            k = k + 1;
        }
        assert(before.listed.take(k as int) =~= before.listed);
        self.listed = left;
        let mut j: usize = 0;
        assert(with_states(before.states, ids@.take(0), state) =~= before.states);
        while j < ids.len()
            invariant
                j <= ids.len(),
                before.is_valid(),
                self@.values == before.values,
                self@.free == before.free,
                self@.listed == before.listed.filter(keep),
                forall|a: int| 0 <= a < ids@.len() ==> before.listed.contains(#[trigger] ids@[a]),
                self@.states == with_states(before.states, ids@.take(j as int), state),
            decreases ids.len() - j,
        {
            let id: usize = ids[j];
            assert(before.listed.contains(ids@[j as int]));
            let ghost mid = self@;
            self.nodes[id].state = state;
            proof {
                assert(self@.values =~= mid.values);
                let now = ids@.take(j + 1);
                assert forall|i: int| 0 <= i < before.states.len() implies #[trigger] self@.states[i]
                    == with_states(before.states, now, state)[i] by {
                    if ids@.take(j as int).contains(i as usize) {
                        let a = choose|a: int|
                            0 <= a < j && ids@.take(j as int)[a] == i as usize;
                        assert(now[a] == i as usize);
                    }
                    if now.contains(i as usize) && i != id {
                        let a = choose|a: int| 0 <= a < now.len() && now[a] == i as usize;
                        assert(ids@.take(j as int)[a] == i as usize);
                    }
                    assert(now[j as int] == id);
                    assert(self@.states[i] == if i == id {
                        state
                    } else {
                        mid.states[i]
                    });
                }
                assert(self@.states =~= with_states(before.states, now, state));
            }
            j = j + 1;
        }
        assert(ids@.take(j as int) =~= ids@);
        proof {
            lemma_filtered(before.listed, keep);
            let after = self@;
            assert forall|a: int| 0 <= a < after.listed.len() implies #[trigger] after.listed[a]
                < after.states.len() by {
                assert(after.listed.contains(after.listed[a]));
                assert(before.listed.contains(after.listed[a]));
            }
            assert forall|i: int| 0 <= i < after.states.len() implies (#[trigger] after.states[i]
                == EntryState::Inserted <==> after.listed.contains(i as usize)) by {
                assert(before.states[i] == EntryState::Inserted <==> before.listed.contains(
                    i as usize,
                ));
            }
            assert forall|a: int| 0 <= a < after.free.len() implies (#[trigger] after.free[a])
                < after.states.len() && after.states[after.free[a] as int] == EntryState::Removed by {
                let n = before.free[a];
                assert(before.states[n as int] == EntryState::Removed);
                if ids@.contains(n) {
                    let c = choose|c: int| 0 <= c < ids@.len() && ids@[c] == n;
                    assert(before.listed.contains(ids@[c]));
                }
            }
        }
    }

    /// Removes entries from the list based on a predicate, returning the removed entries.
    ///
    /// The predicate is called for one entry after the other, and says whether to remove it and
    /// whether to go on. The removed entries are on loan until [`end_loan`](Self::end_loan).
    pub fn extract_if<F: Fn(&T) -> Extract>(&mut self, f: F) -> (r: Vec<LoanListEntry>)
        requires
            old(self)@.is_valid(),
            forall|v: &T| #[trigger] f.requires((v,)),
        ensures
            final(self)@.is_valid(),
            final(self)@.values == old(self)@.values,
            exists|steps: Seq<Extract>| #[trigger]
                is_extraction(old(self)@, f, steps) && numbers(r@) == extracted(
                    old(self)@.listed,
                    steps,
                ) && forall|k: int|
                    0 <= k < r@.len() ==> (#[trigger] r@[k]).number() == extracted(
                        old(self)@.listed,
                        steps,
                    )[k],
            final(self)@.states == with_states(
                old(self)@.states,
                numbers(r@),
                EntryState::Loaned,
            ),
            final(self)@.listed == old(self)@.listed.filter(is_not_in(numbers(r@))),
            final(self)@.free == old(self)@.free,
    {
        let ghost before = self@;
        let mut ids: Vec<usize> = Vec::new();
        let mut out: Vec<LoanListEntry> = Vec::new();
        let ghost mut steps: Seq<Extract> = Seq::empty();
        let mut k: usize = 0;
        let mut going = true;
        assert(ids@ =~= extracted(before.listed, steps));
        while going && k < self.listed.len()
            invariant
                k <= self.listed.len(),
                self@ == before,
                before.is_valid(),
                forall|v: &T| #[trigger] f.requires((v,)),
                steps.len() == k,
                ids@ == extracted(before.listed, steps),
                out@.len() == ids@.len(),
                forall|j: int| 0 <= j < out@.len() ==> (#[trigger] out@[j]).number() == ids@[j],
                forall|j: int| 0 <= j < ids@.len() ==> before.listed.contains(#[trigger] ids@[j]),
                forall|j: int|
                    0 <= j < k ==> f.ensures(
                        (&before.values[before.listed[j] as int],),
                        #[trigger] steps[j],
                    ),
                forall|j: int| 0 <= j < k - 1 ==> !(#[trigger] steps[j]).stops(),
                going ==> forall|j: int| 0 <= j < k ==> !(#[trigger] steps[j]).stops(),
                !going ==> k > 0 && steps[k - 1].stops(),
            decreases self.listed.len() - k,
        {
            let id: usize = self.listed[k];
            assert(before.listed[k as int] == id);
            let step = f(&self.nodes[id].value);
            proof {
                let more = steps.push(step);
                assert(more.drop_last() =~= steps);
                assert(before.values[id as int] == self.nodes@[id as int].value);
                steps = more;
            }
            match step {
                Extract::Keep => {},
                Extract::Remove => {
                    ids.push(id);
                    out.push(LoanListEntry { index: id });
                },
                Extract::KeepAndStop => {
                    going = false;
                },
                Extract::RemoveAndStop => {
                    ids.push(id);
                    out.push(LoanListEntry { index: id });
                    going = false;
                },
            }
            k = k + 1;
        }
        self.take_off(&ids, EntryState::Loaned);
        assert(is_extraction(before, f, steps));
        assert(numbers(out@) =~= ids@);
        out
    }

    /// Lend some entries of the list.
    pub fn lend(&mut self, entries: &Vec<LoanListEntry>)
        requires
            old(self)@.is_valid(),
            forall|k: int|
                0 <= k < entries@.len() ==> old(self)@.listed.contains(
                    (#[trigger] entries@[k]).number() as usize,
                ),
        ensures
            final(self)@.is_valid(),
            final(self)@.values == old(self)@.values,
            final(self)@.states == with_states(
                old(self)@.states,
                numbers(entries@),
                EntryState::Loaned,
            ),
            final(self)@.listed == old(self)@.listed.filter(is_not_in(numbers(entries@))),
            final(self)@.free == old(self)@.free,
    {
        let mut ids: Vec<usize> = Vec::new();
        let mut k: usize = 0;
        while k < entries.len()
            invariant
                k <= entries.len(),
                ids@ =~= numbers(entries@).take(k as int),
            decreases entries.len() - k,
        {
            ids.push(entries[k].index);
            k = k + 1;
        }
        assert(ids@ =~= numbers(entries@));
        assert forall|j: int| 0 <= j < ids@.len() implies self@.listed.contains(
            #[trigger] ids@[j],
        ) by {
            assert(ids@[j] == entries@[j].number() as usize);
        }
        self.take_off(&ids, EntryState::Loaned);
    }

    /// End the loan of an entry. Returns whether the owner has to be woken.
    pub fn end_loan(&mut self, entry: LoanListEntry) -> (r: bool)
        requires
            old(self)@.is_valid(),
            0 <= entry.number() < old(self)@.states.len(),
            old(self)@.states[entry.number()] == EntryState::Loaned || old(
                self,
            )@.states[entry.number()] == EntryState::LoanedOwnerWaiting,
        ensures
            final(self)@.is_valid(),
            ends_loan(old(self)@, entry.number(), final(self)@, r),
    {
        let (state, wake) = end_loan_of(self.nodes[entry.index].state);
        // Once the owner has been woken, the entry is removed.
        self.set_state(entry, EntryState::Removed);
        wake
    }

    fn set_state(&mut self, entry: LoanListEntry, state: EntryState)
        requires
            old(self)@.is_valid(),
            0 <= entry.number() < old(self)@.states.len(),
            old(self)@.states[entry.number()] != EntryState::Inserted,
            old(self)@.states[entry.number()] != EntryState::Removed,
            state != EntryState::Inserted,
        ensures
            final(self)@.is_valid(),
            final(self)@ == (LoanListView {
                states: old(self)@.states.update(entry.number(), state),
                ..old(self)@
            }),
    {
        let ghost before = self@;
        self.nodes[entry.index].state = state;
        proof {
            let after = self@;
            assert(after.values =~= before.values);
            assert(after.states =~= before.states.update(entry.number(), state));
            assert forall|i: int| 0 <= i < after.states.len() implies (#[trigger] after.states[i]
                == EntryState::Inserted <==> after.listed.contains(i as usize)) by {
                assert(before.states[i] == EntryState::Inserted <==> before.listed.contains(
                    i as usize,
                ));
            }
            assert forall|k: int| 0 <= k < after.free.len() implies (#[trigger] after.free[k])
                < after.states.len() && after.states[after.free[k] as int] == EntryState::Removed by {
                assert(before.states[before.free[k] as int] == EntryState::Removed);
            }
        }
    }

    /// Removes an entry for its owner, unless it is on loan. The owner of an entry on loan has to
    /// wait, and may not ask again before the loan has ended.
    pub fn remove(&mut self, entry: LoanListEntry) -> (r: RemoveOutcome)
        requires
            old(self)@.is_valid(),
            0 <= entry.number() < old(self)@.states.len(),
            old(self)@.states[entry.number()] != EntryState::LoanedOwnerWaiting,
        ensures
            final(self)@.is_valid(),
            final(self)@.values == old(self)@.values,
            removes_entry(old(self)@, entry.number(), final(self)@, r),
    {
        let ghost before = self@;
        match begin_remove(self.nodes[entry.index].state) {
            OwnerStep::Finished => RemoveOutcome::Removed,
            OwnerStep::Unlink => {
                let mut ids: Vec<usize> = Vec::new();
                ids.push(entry.index);
                proof {
                    assert(before.states[entry.number()] == EntryState::Inserted);
                    assert(ids@ =~= seq![entry.index]);
                }
                self.take_off(&ids, EntryState::Removed);
                proof {
                    assert(ids@.contains(entry.index)) by {
                        assert(ids@[0] == entry.index);
                    }
                    assert(self@.states =~= before.states.update(
                        entry.number(),
                        EntryState::Removed,
                    ));
                }
                RemoveOutcome::Removed
            },
            OwnerStep::AwaitLoan(state) => {
                self.set_state(entry, state);
                proof {
                    if before.states[entry.number()] != EntryState::Loaned {
                        assert(before.states.update(entry.number(), state) =~= before.states);
                    }
                }
                RemoveOutcome::OnLoan
            },
        }
    }
}

/// The numbers of entries.
pub open spec fn numbers(entries: Seq<LoanListEntry>) -> Seq<usize> {
    entries.map_values(|e: LoanListEntry| e.number() as usize)
}

/// The entries that steps remove, in order.
pub open spec fn extracted(listed: Seq<usize>, steps: Seq<Extract>) -> Seq<usize>
    decreases steps.len(),
{
    if steps.len() == 0 {
        Seq::empty()
    } else {
        let before = extracted(listed, steps.drop_last());
        if steps.last().removes() {
            before.push(listed[steps.len() - 1])
        } else {
            before
        }
    }
}

/// Whether `steps` is what a predicate says of one entry after the other, until it says to stop or
/// there is no further one.
pub open spec fn is_extraction<T, F: Fn(&T) -> Extract>(
    list: LoanListView<T>,
    f: F,
    steps: Seq<Extract>,
) -> bool {
    &&& steps.len() <= list.listed.len()
    &&& forall|j: int|
        0 <= j < steps.len() ==> f.ensures(
            (&list.values[list.listed[j] as int],),
            #[trigger] steps[j],
        )
    &&& forall|j: int| 0 <= j < steps.len() - 1 ==> !(#[trigger] steps[j]).stops()
    &&& steps.len() < list.listed.len() ==> steps.len() > 0 && steps.last().stops()
}

} // verus!
