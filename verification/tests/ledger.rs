use simple_time_tracker::ledger::{MergeError, TrackedTime, TrackedTimeLedger};

fn ledger_of(entries: &[(&str, u64)]) -> TrackedTimeLedger {
    let mut ledger = TrackedTimeLedger::new();
    for (description, duration) in entries {
        assert!(ledger.append(description.to_string(), *duration));
    }
    ledger
}

fn contents(ledger: &TrackedTimeLedger) -> Vec<(String, u64)> {
    ledger.entries.iter().map(|e| (e.description.clone(), e.duration)).collect()
}

fn expect(entries: &[(&str, u64)]) -> Vec<(String, u64)> {
    entries.iter().map(|(d, s)| (d.to_string(), *s)).collect()
}

#[test]
fn a_new_ledger_is_empty() {
    let ledger = TrackedTimeLedger::new();
    assert_eq!(ledger.len(), 0);
    assert!(ledger.get(1).is_none());
}

#[test]
fn a_new_entry_holds_what_it_was_given() {
    let entry = TrackedTime::new(90, String::from("Lunch"));
    assert_eq!(entry.description, "Lunch");
    assert_eq!(entry.duration, 90);
    let copy = entry.clone();
    assert_eq!(copy.description, "Lunch");
    assert_eq!(copy.duration, 90);
}

#[test]
fn append_adds_at_the_end() {
    let mut ledger = ledger_of(&[("A", 10)]);
    assert!(ledger.append(String::from("B"), 20));
    assert!(ledger.append(String::from("A"), 0));
    assert_eq!(contents(&ledger), expect(&[("A", 10), ("B", 20), ("A", 0)]));
    assert_eq!(ledger.len(), 3);
}

#[test]
fn append_refuses_an_empty_description() {
    let mut ledger = ledger_of(&[("A", 10)]);
    assert!(!ledger.append(String::new(), 20));
    assert_eq!(contents(&ledger), expect(&[("A", 10)]));
}

#[test]
fn merge_adds_to_the_entry_at_the_position() {
    let mut ledger = ledger_of(&[("A", 10), ("B", 20), ("C", 30)]);
    assert_eq!(ledger.merge(2, 5), Ok(()));
    assert_eq!(contents(&ledger), expect(&[("A", 10), ("B", 25), ("C", 30)]));
    assert_eq!(ledger.merge(1, 0), Ok(()));
    assert_eq!(ledger.merge(3, 70), Ok(()));
    assert_eq!(contents(&ledger), expect(&[("A", 10), ("B", 25), ("C", 100)]));
}

#[test]
fn merge_refuses_a_position_out_of_range() {
    let mut ledger = ledger_of(&[("A", 10), ("B", 20)]);
    assert_eq!(ledger.merge(0, 5), Err(MergeError::OutOfRange));
    assert_eq!(ledger.merge(3, 5), Err(MergeError::OutOfRange));
    assert_eq!(ledger.merge(usize::MAX, 5), Err(MergeError::OutOfRange));
    assert_eq!(contents(&ledger), expect(&[("A", 10), ("B", 20)]));
    let mut empty = TrackedTimeLedger::new();
    assert_eq!(empty.merge(1, 5), Err(MergeError::OutOfRange));
}

#[test]
fn merge_refuses_a_sum_that_does_not_fit() {
    let mut ledger = ledger_of(&[("A", u64::MAX - 10)]);
    assert_eq!(ledger.merge(1, 11), Err(MergeError::Overflow));
    assert_eq!(contents(&ledger), expect(&[("A", u64::MAX - 10)]));
    assert_eq!(ledger.merge(1, 10), Ok(()));
    assert_eq!(contents(&ledger), expect(&[("A", u64::MAX)]));
}

#[test]
fn delete_moves_later_entries_down() {
    let mut ledger = ledger_of(&[("A", 10), ("B", 20), ("C", 30)]);
    assert!(ledger.delete(2));
    assert_eq!(contents(&ledger), expect(&[("A", 10), ("C", 30)]));
    assert_eq!(ledger.merge(2, 30), Ok(()));
    assert_eq!(contents(&ledger), expect(&[("A", 10), ("C", 60)]));
}

#[test]
fn delete_at_either_end() {
    let mut ledger = ledger_of(&[("A", 10), ("B", 20), ("C", 30)]);
    assert!(ledger.delete(1));
    assert_eq!(contents(&ledger), expect(&[("B", 20), ("C", 30)]));
    assert!(ledger.delete(2));
    assert_eq!(contents(&ledger), expect(&[("B", 20)]));
    assert!(ledger.delete(1));
    assert_eq!(ledger.len(), 0);
}

#[test]
fn delete_out_of_range_changes_nothing() {
    let mut ledger = ledger_of(&[("A", 10), ("B", 20)]);
    assert!(!ledger.delete(0));
    assert!(!ledger.delete(3));
    assert_eq!(contents(&ledger), expect(&[("A", 10), ("B", 20)]));
    let mut empty = TrackedTimeLedger::new();
    assert!(!empty.delete(1));
}

#[test]
fn get_counts_positions_from_one() {
    let ledger = ledger_of(&[("A", 10), ("B", 20)]);
    assert!(ledger.get(0).is_none());
    assert_eq!(ledger.get(1).unwrap().description, "A");
    assert_eq!(ledger.get(2).unwrap().description, "B");
    assert_eq!(ledger.get(2).unwrap().duration, 20);
    assert!(ledger.get(3).is_none());
}
