use litebox::utilities::loan_list::{
    await_loan, begin_remove, end_loan_of, AwaitStep, EntryState, Extract, LoanList, OwnerStep,
    RemoveOutcome,
};
use std::cell::Cell;

fn remove_where(found: bool) -> Extract {
    if found {
        Extract::Remove
    } else {
        Extract::Keep
    }
}

#[test]
fn test_loan_list_basic() {
    let mut list = LoanList::new();

    let entry1 = list.insert(42);
    let entry2 = list.insert(84);

    let removed = list.extract_if(|&v| remove_where(v == 42));
    let mut removed = removed.into_iter();
    let item = removed.next().expect("expected removed item");
    assert_eq!(*list.get(item), 42);
    assert!(removed.next().is_none());

    list.end_loan(item);
    assert_eq!(list.remove(entry1), RemoveOutcome::Removed);

    let removed = list.extract_if(|&v| remove_where(v == 84));
    let mut removed = removed.into_iter();
    let item = removed.next().expect("expected removed item");
    assert_eq!(*list.get(item), 84);
    assert_eq!(item, entry2);
    assert!(removed.next().is_none());
}

#[test]
fn test_loan_list() {
    struct Value {
        key: usize,
        str: String,
        removed: Cell<bool>,
    }
    let mut list = LoanList::new();
    let entries_per_key = 8;
    let n = 8;
    let mut removed = 0;
    let mut owners = Vec::new();
    for i in 0..n {
        let v = list.insert(Value {
            key: i / entries_per_key,
            str: String::from("one"),
            removed: Cell::new(false),
        });
        if i % 2 == 0 {
            assert_eq!(list.remove(v), RemoveOutcome::Removed);
        } else {
            assert_eq!(list.get(v).str, "one");
            owners.push(v);
        }
    }
    let items = list.extract_if(|v| remove_where(v.key == 0));
    for item in items {
        list.get(item).removed.set(true);
        list.end_loan(item);
        removed += 1;
    }
    let observed_removed = owners.iter().filter(|v| list.get(**v).removed.get()).count();
    assert_eq!(removed, observed_removed);
    assert_eq!(removed, entries_per_key / 2);
}

#[test]
fn owner_remove_waits_for_loan_to_complete() {
    struct Value {
        removed: Cell<bool>,
    }
    let mut list = LoanList::new();
    let entry = list.insert(Value { removed: Cell::new(false) });

    let items = list.extract_if(|_| Extract::Remove);
    let mut items = items.into_iter();
    let item = items.next().expect("expected loaned item");
    assert!(items.next().is_none());

    // The owner has to wait for as long as the item is on loan.
    assert_eq!(list.remove(entry), RemoveOutcome::OnLoan);
    assert_eq!(await_loan(list.state(entry)), AwaitStep::Block);

    list.get(item).removed.set(true);
    assert!(list.end_loan(item));

    assert_eq!(await_loan(list.state(entry)), AwaitStep::Finished);
    assert!(list.get(entry).removed.get());
}

#[test]
fn concurrent_extract_and_owner_remove() {
    // Either the owner of the second entry removes it before the others are extracted, or after.
    for owner_first in [true, false] {
        let mut list = LoanList::new();
        let entry1 = list.insert(0usize);
        let entry2 = list.insert(1usize);
        if owner_first {
            assert_eq!(list.remove(entry2), RemoveOutcome::Removed);
        }
        let mut removed = 0;
        for item in list.extract_if(|key| remove_where(*key == 0)) {
            assert_eq!(*list.get(item), 0);
            removed += 1;
            if !owner_first {
                assert_eq!(list.remove(entry2), RemoveOutcome::Removed);
            }
            list.end_loan(item);
        }
        assert_eq!(removed, 1);
        assert_eq!(list.remove(entry1), RemoveOutcome::Removed);
        assert!(list.entries().is_empty());
    }
}

#[test]
fn extraction_stops_where_the_predicate_says_so() {
    let mut list = LoanList::new();
    let entries: Vec<_> = (0..6).map(|i| list.insert(i)).collect();
    let taken = list.extract_if(|&v| match v {
        1 => Extract::Remove,
        3 => Extract::RemoveAndStop,
        _ => Extract::Keep,
    });
    assert_eq!(taken, vec![entries[1], entries[3]]);
    assert_eq!(list.entries(), vec![entries[0], entries[2], entries[4], entries[5]]);

    let taken = list.extract_if(|&v| if v == 0 { Extract::KeepAndStop } else { Extract::Remove });
    assert!(taken.is_empty());
    assert_eq!(list.entries().len(), 4);
}

#[test]
fn words_of_entry_states() {
    let all = [
        EntryState::Inserted,
        EntryState::Loaned,
        EntryState::LoanedOwnerWaiting,
        EntryState::RemovedWaking,
        EntryState::Removed,
    ];
    for (i, s) in all.iter().enumerate() {
        assert_eq!(s.word() as usize, i);
        assert_eq!(EntryState::from_word(s.word()), Some(*s));
    }
    assert_eq!(EntryState::from_word(5), None);
}

#[test]
fn steps_of_owner_and_remover() {
    assert_eq!(begin_remove(EntryState::Removed), OwnerStep::Finished);
    assert_eq!(begin_remove(EntryState::Inserted), OwnerStep::Unlink);
    assert_eq!(
        begin_remove(EntryState::Loaned),
        OwnerStep::AwaitLoan(EntryState::LoanedOwnerWaiting)
    );
    assert_eq!(
        begin_remove(EntryState::RemovedWaking),
        OwnerStep::AwaitLoan(EntryState::RemovedWaking)
    );
    assert_eq!(await_loan(EntryState::RemovedWaking), AwaitStep::Spin);
    assert_eq!(end_loan_of(EntryState::Loaned), (EntryState::Removed, false));
    assert_eq!(
        end_loan_of(EntryState::LoanedOwnerWaiting),
        (EntryState::RemovedWaking, true)
    );
}

#[test]
fn entries_that_were_given_up_are_used_again() {
    let mut list = LoanList::new();
    let a = list.insert("a");
    let b = list.insert("b");
    assert_eq!(list.remove(a), RemoveOutcome::Removed);
    list.release(a);
    let c = list.insert("c");
    assert_eq!(c, a);
    // The new entry is at the end of the list
    assert_eq!(list.entries(), vec![b, c]);
    assert_eq!(*list.get(c), "c");
    assert_eq!(list.state(c), EntryState::Inserted);
    let d = list.insert("d");
    assert!(d != b && d != c);
}
