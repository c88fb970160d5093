use simple_time_tracker::clock::TimerClock;
use simple_time_tracker::ledger::TrackedTimeLedger;
use simple_time_tracker::tracker::{
    accepts_index_text, accepts_time_text, ApplyOutcome, Effect, Message, SimpleTimeTracker,
};

fn tracker_with(entries: &[(&str, u64)], clock: TimerClock) -> SimpleTimeTracker {
    let mut ledger = TrackedTimeLedger::new();
    for (description, duration) in entries {
        assert!(ledger.append(description.to_string(), *duration));
    }
    let mut tracker = SimpleTimeTracker::new(0, ledger);
    tracker.clock = clock;
    tracker
}

fn running_since(start: i64) -> TimerClock {
    TimerClock { is_running: true, start_instant: start, pause_instant: start }
}

fn paused_with(elapsed: i64) -> TimerClock {
    TimerClock { is_running: false, start_instant: 1_000, pause_instant: 1_000 + elapsed }
}

fn entries_of(tracker: &SimpleTimeTracker) -> Vec<(String, u64)> {
    tracker.ledger.entries.iter().map(|e| (e.description.clone(), e.duration)).collect()
}

fn expect(entries: &[(&str, u64)]) -> Vec<(String, u64)> {
    entries.iter().map(|(d, s)| (d.to_string(), *s)).collect()
}

fn total(tracker: &SimpleTimeTracker) -> u64 {
    tracker.ledger.entries.iter().map(|e| e.duration).sum()
}

#[test]
fn a_new_tracker_is_dark_paused_and_empty_handed() {
    let tracker = SimpleTimeTracker::new(500, TrackedTimeLedger::new());
    assert!(tracker.is_dark_mode);
    assert!(!tracker.clock.is_running);
    assert_eq!(tracker.get_current_duration_at(500), Some(0));
    assert_eq!(tracker.ledger.len(), 0);
    assert_eq!(tracker.time_input, "");
    assert_eq!(tracker.description_input, "");
    assert_eq!(tracker.index_input, "");
    assert_eq!(tracker.title(), "Simple Time Tracker");
    assert!(!tracker.subscription());
}

#[test]
fn the_tick_is_wanted_only_while_running() {
    let mut tracker = SimpleTimeTracker::new(500, TrackedTimeLedger::new());
    assert!(!tracker.subscription());
    tracker.update_at(Message::StartStopTimer, 500);
    assert!(tracker.subscription());
    tracker.update_at(Message::StartStopTimer, 600);
    assert!(!tracker.subscription());
}

#[test]
fn committing_to_a_new_entry_conserves_time() {
    let mut tracker = tracker_with(&[("A", 100)], running_since(0));
    tracker.time_input = String::from("1:30");
    tracker.description_input = String::from("Lunch");
    let now = 2 * 3600 + 17;
    let elapsed_before = tracker.get_current_duration_at(now).unwrap();
    let total_before = total(&tracker);
    assert_eq!(tracker.apply_operation_at(now), ApplyOutcome::Appended);
    assert_eq!(entries_of(&tracker), expect(&[("A", 100), ("Lunch", 5400)]));
    assert_eq!(tracker.get_current_duration_at(now), Some(elapsed_before - 5400));
    assert_eq!(total(&tracker), total_before + 5400);
    assert!(tracker.clock.is_running);
    assert_eq!(tracker.clock.start_instant, 5400);
    assert_eq!(tracker.time_input, "");
    assert_eq!(tracker.description_input, "");
    assert_eq!(tracker.index_input, "");
}

#[test]
fn committing_to_an_existing_entry_conserves_time() {
    let mut tracker = tracker_with(&[("A", 100), ("B", 200)], paused_with(3000));
    tracker.time_input = String::from("20");
    tracker.index_input = String::from("2");
    assert_eq!(tracker.apply_operation_at(0), ApplyOutcome::Merged);
    assert_eq!(entries_of(&tracker), expect(&[("A", 100), ("B", 1400)]));
    assert_eq!(tracker.get_current_duration_at(0), Some(1800));
    assert!(!tracker.clock.is_running);
    assert_eq!(tracker.clock.pause_instant, 1_000 + 1800);
    assert_eq!(tracker.time_input, "");
    assert_eq!(tracker.index_input, "");
}

#[test]
fn an_empty_time_text_commits_all_that_has_elapsed() {
    let mut tracker = tracker_with(&[], paused_with(2759));
    tracker.description_input = String::from("Everything");
    assert_eq!(tracker.apply_operation_at(9_999), ApplyOutcome::Appended);
    assert_eq!(entries_of(&tracker), expect(&[("Everything", 2759)]));
    assert_eq!(tracker.get_current_duration_at(9_999), Some(0));
}

#[test]
fn both_targets_at_once_change_nothing() {
    let mut tracker = tracker_with(&[("A", 100)], paused_with(3000));
    tracker.time_input = String::from("10");
    tracker.description_input = String::from("Lunch");
    tracker.index_input = String::from("1");
    assert_eq!(tracker.apply_operation_at(0), ApplyOutcome::TargetUnclear);
    assert_eq!(entries_of(&tracker), expect(&[("A", 100)]));
    assert_eq!(tracker.get_current_duration_at(0), Some(3000));
    assert_eq!(tracker.time_input, "10");
    assert_eq!(tracker.description_input, "Lunch");
    assert_eq!(tracker.index_input, "1");
}

#[test]
fn no_target_at_all_changes_nothing() {
    let mut tracker = tracker_with(&[("A", 100)], paused_with(3000));
    tracker.time_input = String::from("10");
    assert_eq!(tracker.apply_operation_at(0), ApplyOutcome::TargetUnclear);
    assert_eq!(entries_of(&tracker), expect(&[("A", 100)]));
    assert_eq!(tracker.get_current_duration_at(0), Some(3000));
    assert_eq!(tracker.time_input, "10");
}

#[test]
fn the_bound_of_a_running_clock_is_enforced() {
    let mut tracker = tracker_with(&[], running_since(0));
    let now = 45 * 60;
    tracker.description_input = String::from("Work");
    tracker.time_input = String::from("50");
    assert_eq!(tracker.apply_operation_at(now), ApplyOutcome::DurationRefused);
    assert_eq!(tracker.ledger.len(), 0);
    assert_eq!(tracker.time_input, "50");
    assert_eq!(tracker.description_input, "Work");
    assert_eq!(tracker.get_current_duration_at(now), Some(2700));
    tracker.time_input = String::from("30");
    assert_eq!(tracker.apply_operation_at(now), ApplyOutcome::Appended);
    assert_eq!(entries_of(&tracker), expect(&[("Work", 1800)]));
    assert_eq!(tracker.get_current_duration_at(now), Some(900));
}

#[test]
fn the_duration_is_checked_before_the_target() {
    let mut tracker = tracker_with(&[], paused_with(3000));
    tracker.time_input = String::from("1:2:3");
    assert_eq!(tracker.apply_operation_at(0), ApplyOutcome::DurationRefused);
    tracker.description_input = String::from("A");
    tracker.index_input = String::from("1");
    assert_eq!(tracker.apply_operation_at(0), ApplyOutcome::DurationRefused);
}

#[test]
fn more_than_the_clock_holds_is_not_committed() {
    let mut tracker = tracker_with(&[("A", 100)], paused_with(4200));
    tracker.time_input = String::from("1:30");
    tracker.index_input = String::from("1");
    assert_eq!(tracker.apply_operation_at(0), ApplyOutcome::Overdrawn);
    assert_eq!(entries_of(&tracker), expect(&[("A", 100)]));
    assert_eq!(tracker.get_current_duration_at(0), Some(4200));
    assert_eq!(tracker.time_input, "1:30");
    assert_eq!(tracker.index_input, "1");
    tracker.time_input = String::from("1:10");
    assert_eq!(tracker.apply_operation_at(0), ApplyOutcome::Merged);
    assert_eq!(entries_of(&tracker), expect(&[("A", 4300)]));
    assert_eq!(tracker.get_current_duration_at(0), Some(0));
}

#[test]
fn an_entry_number_without_an_entry_changes_nothing() {
    let mut tracker = tracker_with(&[("A", 100)], paused_with(3000));
    tracker.time_input = String::from("10");
    for index in ["0", "2", "99", "x", "-1", "+1", "1.0", "99999999999999999999999"] {
        tracker.index_input = String::from(index);
        assert_eq!(tracker.apply_operation_at(0), ApplyOutcome::NoSuchEntry, "{}", index);
        assert_eq!(entries_of(&tracker), expect(&[("A", 100)]));
        assert_eq!(tracker.get_current_duration_at(0), Some(3000));
        assert_eq!(tracker.time_input, "10");
        assert_eq!(tracker.index_input, index);
    }
    tracker.index_input = String::from("01");
    assert_eq!(tracker.apply_operation_at(0), ApplyOutcome::Merged);
    assert_eq!(entries_of(&tracker), expect(&[("A", 700)]));
}

#[test]
fn an_entry_that_would_overflow_is_left_alone() {
    let mut tracker = tracker_with(&[("A", u64::MAX - 10)], paused_with(3000));
    tracker.time_input = String::from("1");
    tracker.index_input = String::from("1");
    assert_eq!(tracker.apply_operation_at(0), ApplyOutcome::Overflow);
    assert_eq!(entries_of(&tracker), expect(&[("A", u64::MAX - 10)]));
    assert_eq!(tracker.get_current_duration_at(0), Some(3000));
    assert_eq!(tracker.time_input, "1");
    assert_eq!(tracker.index_input, "1");
}

#[test]
fn a_clock_started_in_the_future_gives_nothing() {
    let mut tracker = tracker_with(&[], running_since(100));
    tracker.description_input = String::from("A");
    assert_eq!(tracker.get_current_duration_at(50), None);
    assert_eq!(tracker.apply_operation_at(50), ApplyOutcome::ClockBehind);
    assert_eq!(tracker.ledger.len(), 0);
    assert_eq!(tracker.description_input, "A");
    assert_eq!(tracker.clock.start_instant, 100);
    assert!(matches!(tracker.update_at(Message::StartStopTimer, 50), Effect::Nothing));
    assert!(tracker.clock.is_running);
    assert_eq!(tracker.clock.start_instant, 100);
}

#[test]
fn start_stop_toggles_the_clock_and_keeps_the_elapsed_time() {
    let mut tracker = tracker_with(&[], paused_with(60));
    assert!(matches!(tracker.update_at(Message::StartStopTimer, 5_000), Effect::Nothing));
    assert!(tracker.clock.is_running);
    assert_eq!(tracker.get_current_duration_at(5_000), Some(60));
    assert_eq!(tracker.get_current_duration_at(5_030), Some(90));
    assert!(matches!(tracker.update_at(Message::StartStopTimer, 5_030), Effect::Nothing));
    assert!(!tracker.clock.is_running);
    assert_eq!(tracker.get_current_duration_at(9_000), Some(90));
}

#[test]
fn a_paused_clock_starts_before_its_pause_too() {
    let mut tracker = tracker_with(&[], paused_with(60));
    tracker.update_at(Message::StartStopTimer, 1_059);
    assert!(tracker.clock.is_running);
    assert_eq!(tracker.clock.start_instant, 999);
    assert_eq!(tracker.get_current_duration_at(1_059), Some(60));
}

#[test]
fn a_paused_clock_does_not_start_where_its_start_cannot_be_held() {
    let mut tracker = tracker_with(&[], paused_with(60));
    tracker.update_at(Message::StartStopTimer, i64::MIN + 59);
    assert!(!tracker.clock.is_running);
    assert_eq!(tracker.clock.start_instant, 1_000);
    assert_eq!(tracker.clock.pause_instant, 1_060);
    tracker.update_at(Message::StartStopTimer, i64::MIN + 60);
    assert!(tracker.clock.is_running);
    assert_eq!(tracker.clock.start_instant, i64::MIN);
}

#[test]
fn the_theme_toggles() {
    let mut tracker = tracker_with(&[], paused_with(60));
    assert!(matches!(tracker.update_at(Message::DarkModeToggle, 0), Effect::Nothing));
    assert!(!tracker.is_dark_mode);
    tracker.update_at(Message::DarkModeToggle, 0);
    assert!(tracker.is_dark_mode);
}

#[test]
fn the_tick_changes_nothing() {
    let mut tracker = tracker_with(&[("A", 1)], running_since(0));
    tracker.time_input = String::from("5");
    assert!(matches!(tracker.update_at(Message::TimeUpdate, 77), Effect::Nothing));
    assert!(tracker.clock.is_running);
    assert_eq!(tracker.clock.start_instant, 0);
    assert_eq!(entries_of(&tracker), expect(&[("A", 1)]));
    assert_eq!(tracker.time_input, "5");
}

#[test]
fn the_time_buffer_takes_short_texts_of_digits_and_colons() {
    for text in ["", "1", "12", ":", "1:", ":1", "::", "1:3", "1:30", "12:30", "1:2:3", ":::::" ] {
        assert!(accepts_time_text(text), "{}", text);
    }
    for text in ["123", "1234", "12345", "12:345", "123456", "a", "1a", "-1", "1:3a", "1 ", "\u{661}"] {
        assert!(!accepts_time_text(text), "{}", text);
    }
    let mut tracker = tracker_with(&[], paused_with(60));
    tracker.update_at(Message::TimeInputChanged(String::from("1:30")), 0);
    assert_eq!(tracker.time_input, "1:30");
    tracker.update_at(Message::TimeInputChanged(String::from("1:30x")), 0);
    assert_eq!(tracker.time_input, "1:30");
    tracker.update_at(Message::TimeInputChanged(String::from("130")), 0);
    assert_eq!(tracker.time_input, "1:30");
    tracker.update_at(Message::TimeInputChanged(String::new()), 0);
    assert_eq!(tracker.time_input, "");
}

#[test]
fn the_index_buffer_takes_up_to_two_digits() {
    for text in ["", "0", "1", "12", "99", "00"] {
        assert!(accepts_index_text(text), "{}", text);
    }
    for text in ["123", "a", "1a", "-1", "+1", " 1", "1:"] {
        assert!(!accepts_index_text(text), "{}", text);
    }
    let mut tracker = tracker_with(&[], paused_with(60));
    tracker.update_at(Message::IndexInputChanged(String::from("12")), 0);
    assert_eq!(tracker.index_input, "12");
    tracker.update_at(Message::IndexInputChanged(String::from("123")), 0);
    assert_eq!(tracker.index_input, "12");
    tracker.update_at(Message::IndexInputChanged(String::from("x")), 0);
    assert_eq!(tracker.index_input, "12");
    tracker.update_at(Message::IndexInputChanged(String::new()), 0);
    assert_eq!(tracker.index_input, "");
}

#[test]
fn the_description_buffer_takes_any_text() {
    let mut tracker = tracker_with(&[], paused_with(60));
    tracker.update_at(Message::DescriptionInputChanged(String::from("Lunch: 1h!")), 0);
    assert_eq!(tracker.description_input, "Lunch: 1h!");
    tracker.update_at(Message::DescriptionInputChanged(String::new()), 0);
    assert_eq!(tracker.description_input, "");
}

#[test]
fn apply_through_a_message_asks_to_persist_on_success_only() {
    let mut tracker = tracker_with(&[], paused_with(600));
    tracker.update_at(Message::TimeInputChanged(String::from("5")), 0);
    assert!(matches!(tracker.update_at(Message::ApplyOperation, 0), Effect::Nothing));
    assert_eq!(tracker.ledger.len(), 0);
    tracker.update_at(Message::DescriptionInputChanged(String::from("Mail")), 0);
    assert!(matches!(tracker.update_at(Message::ApplyOperation, 0), Effect::Persist));
    assert_eq!(entries_of(&tracker), expect(&[("Mail", 300)]));
    assert_eq!(tracker.get_current_duration_at(0), Some(300));
    tracker.update_at(Message::IndexInputChanged(String::from("1")), 0);
    assert!(matches!(tracker.update_at(Message::ApplyOperation, 0), Effect::Persist));
    assert_eq!(entries_of(&tracker), expect(&[("Mail", 600)]));
    assert_eq!(tracker.get_current_duration_at(0), Some(0));
}

#[test]
fn delete_through_a_message_shifts_positions() {
    let mut tracker = tracker_with(&[("A", 1), ("B", 2), ("C", 3)], paused_with(600));
    assert!(matches!(tracker.update_at(Message::DeleteTrackedTime(2), 0), Effect::Persist));
    assert_eq!(entries_of(&tracker), expect(&[("A", 1), ("C", 3)]));
    tracker.time_input = String::from("0");
    tracker.index_input = String::from("2");
    tracker.clock = paused_with(30);
    tracker.time_input = String::new();
    assert_eq!(tracker.apply_operation_at(0), ApplyOutcome::Merged);
    assert_eq!(entries_of(&tracker), expect(&[("A", 1), ("C", 33)]));
    assert!(matches!(tracker.update_at(Message::DeleteTrackedTime(0), 0), Effect::Nothing));
    assert!(matches!(tracker.update_at(Message::DeleteTrackedTime(3), 0), Effect::Nothing));
    assert_eq!(entries_of(&tracker), expect(&[("A", 1), ("C", 33)]));
}

#[test]
fn copy_hands_out_the_description_and_changes_nothing() {
    let mut tracker = tracker_with(&[("A", 1), ("B", 2)], paused_with(600));
    match tracker.update_at(Message::CopyText(2), 0) {
        Effect::CopyToClipboard(text) => assert_eq!(text, "B"),
        other => panic!("{:?}", other),
    }
    assert!(matches!(tracker.update_at(Message::CopyText(0), 0), Effect::Nothing));
    assert!(matches!(tracker.update_at(Message::CopyText(3), 0), Effect::Nothing));
    assert_eq!(entries_of(&tracker), expect(&[("A", 1), ("B", 2)]));
    assert_eq!(tracker.get_current_duration_at(0), Some(600));
}

#[test]
fn the_wall_clock_drives_the_plain_entry_points() {
    let mut tracker = SimpleTimeTracker::new(0, TrackedTimeLedger::new());
    tracker.clock = TimerClock { is_running: false, start_instant: 0, pause_instant: 120 };
    assert_eq!(tracker.get_current_duration(), Some(120));
    assert!(matches!(tracker.update(Message::StartStopTimer), Effect::Nothing));
    assert!(tracker.clock.is_running);
    // The wall clock is far past the first seconds of 1970.
    assert!(tracker.clock.start_instant > 1_000_000_000);
    let elapsed = tracker.get_current_duration().unwrap();
    assert!(elapsed >= 120 && elapsed < 130);
    tracker.description_input = String::from("Two minutes");
    tracker.time_input = String::from("2");
    assert_eq!(tracker.apply_operation(), ApplyOutcome::Appended);
    assert_eq!(entries_of(&tracker), expect(&[("Two minutes", 120)]));
    let left = tracker.get_current_duration().unwrap();
    assert!(left < 10);
    assert!(matches!(tracker.update(Message::StartStopTimer), Effect::Nothing));
    assert!(!tracker.clock.is_running);
}

#[test]
fn validity_is_a_sound_clock_and_described_entries() {
    let mut tracker = tracker_with(&[("A", 1)], paused_with(60));
    assert!(tracker.is_valid());
    assert!(tracker.clock.is_valid());
    assert!(tracker.ledger.is_valid());
    tracker.clock = TimerClock { is_running: false, start_instant: 10, pause_instant: 9 };
    assert!(!tracker.clock.is_valid());
    assert!(!tracker.is_valid());
    tracker.clock = TimerClock { is_running: true, start_instant: 10, pause_instant: 9 };
    assert!(tracker.is_valid());
    tracker.ledger.entries[0].description = String::new();
    assert!(!tracker.ledger.is_valid());
    assert!(!tracker.is_valid());
}

#[test]
fn delete_entry_removes_by_position() {
    let mut tracker = tracker_with(&[("A", 1), ("B", 2), ("C", 3)], paused_with(600));
    assert!(!tracker.delete_entry(0));
    assert!(!tracker.delete_entry(4));
    assert_eq!(entries_of(&tracker), expect(&[("A", 1), ("B", 2), ("C", 3)]));
    assert!(tracker.delete_entry(3));
    assert!(tracker.delete_entry(1));
    assert_eq!(entries_of(&tracker), expect(&[("B", 2)]));
    assert_eq!(tracker.get_current_duration_at(0), Some(600));
}

#[test]
fn copy_description_reads_by_position() {
    let tracker = tracker_with(&[("A", 1), ("B", 2)], paused_with(600));
    assert_eq!(tracker.copy_description(0), None);
    assert_eq!(tracker.copy_description(1), Some(String::from("A")));
    assert_eq!(tracker.copy_description(2), Some(String::from("B")));
    assert_eq!(tracker.copy_description(3), None);
}

#[test]
fn messages_and_effects_can_be_copied() {
    let message = Message::TimeInputChanged(String::from("1:30"));
    match message.clone() {
        Message::TimeInputChanged(text) => assert_eq!(text, "1:30"),
        other => panic!("{:?}", other),
    }
    assert!(matches!(Message::CopyText(3).clone(), Message::CopyText(3)));
    match Effect::CopyToClipboard(String::from("A")).clone() {
        Effect::CopyToClipboard(text) => assert_eq!(text, "A"),
        other => panic!("{:?}", other),
    }
    assert!(matches!(Effect::Persist.clone(), Effect::Persist));
}
