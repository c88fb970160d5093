//! The engine: a clock, a ledger and three text buffers, and the rules by
//! which user intents change them.

use vstd::prelude::*;
use crate::clock::TimerClock;
use crate::duration_input::{
    chars_of, colon_index, find_colon, is_digit, is_numeral, numeral_in_range, parse_duration,
    parsed_duration, read_numeral,
};
use crate::ledger::{
    all_described, lemma_total_after_append, lemma_total_after_merge, total_duration, with_added,
    Entry, MergeError, TrackedTimeLedger,
};
use crate::time_source::wall_clock_seconds;

verus! {

/// How an attempt to commit time ended. Every outcome but `Appended` and
/// `Merged` leaves the tracker exactly as it was.
#[derive(Clone, Copy, Debug, PartialEq, Eq, Structural)]
pub enum ApplyOutcome {
    /// The duration went to a new entry at the end of the ledger.
    Appended,
    /// The duration was added to an existing entry.
    Merged,
    /// The time text is not a duration that the grammar and its rules admit.
    DurationRefused,
    /// The duration asked for is more than the clock holds.
    Overdrawn,
    /// Both a description and an entry number were given, or neither.
    TargetUnclear,
    /// The entry number is not a number, is zero, or is beyond the ledger.
    NoSuchEntry,
    /// The entry's duration would no longer fit.
    Overflow,
    /// The clock runs and was started after the instant at which it was
    /// asked, so it has no elapsed time to give.
    ClockBehind,
}

/// A user intent, or the periodic tick.
#[derive(Debug)]
pub enum Message {
    /// The periodic tick of a running clock. It changes nothing.
    TimeUpdate,
    StartStopTimer,
    DarkModeToggle,
    TimeInputChanged(String),
    DescriptionInputChanged(String),
    IndexInputChanged(String),
    ApplyOperation,
    /// Delete the entry at this 1-based position.
    DeleteTrackedTime(usize),
    /// Copy the description of the entry at this 1-based position.
    CopyText(usize),
}

/// What the surrounding program has to do after a message was handled.
#[derive(Debug)]
pub enum Effect {
    Nothing,
    /// The ledger changed: save it.
    Persist,
    /// Put this text on the clipboard.
    CopyToClipboard(String),
}

impl Clone for Message {
    fn clone(&self) -> (copy: Message)
        ensures
            copy == *self,
    {
        match self {
            Message::TimeUpdate => Message::TimeUpdate,
            Message::StartStopTimer => Message::StartStopTimer,
            Message::DarkModeToggle => Message::DarkModeToggle,
            Message::TimeInputChanged(text) => Message::TimeInputChanged(text.clone()),
            Message::DescriptionInputChanged(text) => Message::DescriptionInputChanged(
                text.clone(),
            ),
            Message::IndexInputChanged(text) => Message::IndexInputChanged(text.clone()),
            Message::ApplyOperation => Message::ApplyOperation,
            Message::DeleteTrackedTime(position) => Message::DeleteTrackedTime(*position),
            Message::CopyText(position) => Message::CopyText(*position),
        }
    }
}

impl Clone for Effect {
    fn clone(&self) -> (copy: Effect)
        ensures
            copy == *self,
    {
        match self {
            Effect::Nothing => Effect::Nothing,
            Effect::Persist => Effect::Persist,
            Effect::CopyToClipboard(text) => Effect::CopyToClipboard(text.clone()),
        }
    }
}

/// An `Effect` as plain values.
pub enum EffectView {
    Nothing,
    Persist,
    CopyToClipboard(Seq<char>),
}

impl View for Effect {
    type V = EffectView;

    open spec fn view(&self) -> EffectView {
        match self {
            Effect::Nothing => EffectView::Nothing,
            Effect::Persist => EffectView::Persist,
            Effect::CopyToClipboard(text) => EffectView::CopyToClipboard(text@),
        }
    }
}

/// Longest time text that the time buffer takes, in characters.
pub const TIME_INPUT_LIMIT: usize = 5;

/// Longest time text that needs no `:`, in characters.
pub const BARE_MINUTES_LIMIT: usize = 2;

/// Longest entry number that the index buffer takes, in characters.
pub const INDEX_INPUT_LIMIT: usize = 2;

/// `text` holds nothing but decimal digits and `:`.
pub open spec fn only_digits_and_colons(text: Seq<char>) -> bool {
    forall|i: int| 0 <= i < text.len() ==> is_digit(#[trigger] text[i]) || text[i] == ':'
}

/// The time buffer takes `text`: digits and colons only, at most five
/// characters, and a `:` among them where there are more than two.
pub open spec fn time_text_accepted(text: Seq<char>) -> bool {
    &&& only_digits_and_colons(text)
    &&& text.len() <= TIME_INPUT_LIMIT
    &&& text.len() > BARE_MINUTES_LIMIT ==> colon_index(text) < text.len()
}

/// The index buffer takes `text`: nothing, or a numeral of at most two
/// digits.
pub open spec fn index_text_accepted(text: Seq<char>) -> bool {
    text.len() == 0 || (text.len() <= INDEX_INPUT_LIMIT && is_numeral(text))
}

/// The tracker as plain values.
pub struct TrackerState {
    pub is_dark_mode: bool,
    pub clock: TimerClock,
    pub ledger: Seq<Entry>,
    pub time_input: Seq<char>,
    pub description_input: Seq<char>,
    pub index_input: Seq<char>,
}

impl TrackerState {
    /// The clock is well formed and every entry has a description.
    pub open spec fn wf(self) -> bool {
        self.clock.wf() && all_described(self.ledger)
    }

    /// The duration that the time buffer asks for at `now`, the bound being
    /// the clock's elapsed time.
    pub open spec fn requested_duration(self, now: i64) -> Option<u64> {
        parsed_duration(self.time_input, self.clock.elapsed_at(now) as u64)
    }

    /// How committing time at `now` ends. The checks come in this order: the
    /// clock, the duration, the clock's holdings, the choice of target, the
    /// target.
    pub open spec fn apply_outcome(self, now: i64) -> ApplyOutcome {
        if !self.clock.readable_at(now) {
            ApplyOutcome::ClockBehind
        } else {
            match self.requested_duration(now) {
                None => ApplyOutcome::DurationRefused,
                Some(duration) => {
                    if duration > self.clock.elapsed_at(now) {
                        ApplyOutcome::Overdrawn
                    } else if (self.description_input.len() > 0) == (self.index_input.len()
                        > 0) {
                        ApplyOutcome::TargetUnclear
                    } else if self.description_input.len() > 0 {
                        ApplyOutcome::Appended
                    } else {
                        self.merge_outcome(duration)
                    }
                },
            }
        }
    }

    /// How adding `duration` to the entry that the index buffer names ends.
    pub open spec fn merge_outcome(self, duration: u64) -> ApplyOutcome {
        match numeral_in_range(self.index_input) {
            None => ApplyOutcome::NoSuchEntry,
            Some(position) => {
                if position == 0 || position > self.ledger.len() {
                    ApplyOutcome::NoSuchEntry
                } else if self.ledger[position - 1].duration + duration > u64::MAX {
                    ApplyOutcome::Overflow
                } else {
                    ApplyOutcome::Merged
                }
            },
        }
    }

    /// The position that the index buffer names.
    pub open spec fn target_position(self) -> int {
        numeral_in_range(self.index_input).unwrap() as int
    }

    /// The ledger after committing time at `now`.
    pub open spec fn applied_ledger(self, now: i64) -> Seq<Entry> {
        match self.apply_outcome(now) {
            ApplyOutcome::Appended => self.ledger.push(
                Entry {
                    description: self.description_input,
                    duration: self.requested_duration(now).unwrap(),
                },
            ),
            ApplyOutcome::Merged => with_added(
                self.ledger,
                self.target_position(),
                self.requested_duration(now).unwrap(),
            ),
            _ => self.ledger,
        }
    }

    /// The tracker after committing time at `now`. On success the duration
    /// has moved from the clock to the ledger and the three buffers are
    /// empty; otherwise nothing has changed.
    pub open spec fn applied(self, now: i64) -> TrackerState {
        match self.apply_outcome(now) {
            ApplyOutcome::Appended | ApplyOutcome::Merged => TrackerState {
                is_dark_mode: self.is_dark_mode,
                clock: self.clock.committed(self.requested_duration(now).unwrap()),
                ledger: self.applied_ledger(now),
                time_input: Seq::empty(),
                description_input: Seq::empty(),
                index_input: Seq::empty(),
            },
            _ => self,
        }
    }

    /// The tracker after the entry at the 1-based `position` was deleted:
    /// unchanged where there is no such entry.
    pub open spec fn without_entry(self, position: int) -> TrackerState {
        if 1 <= position <= self.ledger.len() {
            TrackerState { ledger: self.ledger.remove(position - 1), ..self }
        } else {
            self
        }
    }

    /// The tracker after `message` was handled at `now`. A start/stop at an
    /// instant at which the clock cannot switch changes nothing.
    pub open spec fn updated(self, message: Message, now: i64) -> TrackerState {
        match message {
            Message::TimeUpdate => self,
            Message::StartStopTimer => if self.clock.switchable_at(now) {
                TrackerState { clock: self.clock.toggled_at(now), ..self }
            } else {
                self
            },
            Message::DarkModeToggle => TrackerState { is_dark_mode: !self.is_dark_mode, ..self },
            Message::TimeInputChanged(text) => if time_text_accepted(text@) {
                TrackerState { time_input: text@, ..self }
            } else {
                self
            },
            Message::DescriptionInputChanged(text) => TrackerState {
                description_input: text@,
                ..self
            },
            Message::IndexInputChanged(text) => if index_text_accepted(text@) {
                TrackerState { index_input: text@, ..self }
            } else {
                self
            },
            Message::ApplyOperation => self.applied(now),
            Message::DeleteTrackedTime(position) => self.without_entry(position as int),
            Message::CopyText(_) => self,
        }
    }

    /// What is left to do after `message` was handled at `now`: save the
    /// ledger where it changed, copy a description where one was asked for
    /// and exists.
    pub open spec fn effect(self, message: Message, now: i64) -> EffectView {
        match message {
            Message::ApplyOperation => match self.apply_outcome(now) {
                ApplyOutcome::Appended | ApplyOutcome::Merged => EffectView::Persist,
                _ => EffectView::Nothing,
            },
            Message::DeleteTrackedTime(position) => if 1 <= position <= self.ledger.len() {
                EffectView::Persist
            } else {
                EffectView::Nothing
            },
            Message::CopyText(position) => if 1 <= position <= self.ledger.len() {
                EffectView::CopyToClipboard(self.ledger[position - 1].description)
            } else {
                EffectView::Nothing
            },
            _ => EffectView::Nothing,
        }
    }
}

/// The time accounting engine.
#[derive(Debug)]
pub struct SimpleTimeTracker {
    pub is_dark_mode: bool,
    pub clock: TimerClock,
    pub ledger: TrackedTimeLedger,
    pub time_input: String,
    pub description_input: String,
    pub index_input: String,
}

impl View for SimpleTimeTracker {
    type V = TrackerState;

    open spec fn view(&self) -> TrackerState {
        TrackerState {
            is_dark_mode: self.is_dark_mode,
            clock: self.clock,
            ledger: self.ledger@,
            time_input: self.time_input@,
            description_input: self.description_input@,
            index_input: self.index_input@,
        }
    }
}

/// Whether `chars` holds nothing but decimal digits and `:`.
fn holds_only_digits_and_colons(chars: &Vec<char>) -> (only: bool)
    ensures
        only == only_digits_and_colons(chars@),
{
    let mut i: usize = 0;
    while i < chars.len()
        invariant
            i <= chars.len(),
            forall|j: int| 0 <= j < i ==> is_digit(#[trigger] chars@[j]) || chars@[j] == ':',
        decreases chars.len() - i,
    {
        let c = chars[i];
        if !(c == ':' || ('0' <= c && c <= '9')) {
            return false;
        }
        i += 1;
    }
    true
}

/// Whether the time buffer takes `text`.
pub fn accepts_time_text(text: &str) -> (accepted: bool)
    ensures
        accepted == time_text_accepted(text@),
{
    let chars = chars_of(text);
    if chars.len() > TIME_INPUT_LIMIT || !holds_only_digits_and_colons(&chars) {
        return false;
    }
    chars.len() <= BARE_MINUTES_LIMIT || find_colon(&chars) < chars.len()
}

/// Whether the index buffer takes `text`.
pub fn accepts_index_text(text: &str) -> (accepted: bool)
    ensures
        accepted == index_text_accepted(text@),
{
    let chars = chars_of(text);
    if chars.len() == 0 {
        return true;
    }
    if chars.len() > INDEX_INPUT_LIMIT {
        return false;
    }
    assert(chars@.subrange(0, chars.len() as int) =~= chars@);
    let value = read_numeral(&chars, 0, chars.len());
    proof {
        if is_numeral(chars@) {
            lemma_short_numeral_is_small(chars@);
        }
    }
    value.is_some()
}

/// A numeral of at most two digits denotes a number below one hundred.
proof fn lemma_short_numeral_is_small(s: Seq<char>)
    requires
        is_numeral(s),
        s.len() <= 2,
    ensures
        crate::duration_input::numeral_value(s) < 100,
{
    reveal_with_fuel(crate::duration_input::numeral_value, 3);
    assert(is_digit(s[0]));
    if s.len() == 2 {
        assert(is_digit(s[1]));
        assert(s.drop_last().len() == 1);
        assert(s.drop_last()[0] == s[0]);
    }
}

impl SimpleTimeTracker {
    /// The clock is well formed and every entry has a description.
    pub open spec fn wf(&self) -> bool {
        self@.wf()
    }

    /// A tracker in dark mode with a paused clock at zero, empty buffers and
    /// the given ledger.
    pub fn new(now: i64, ledger: TrackedTimeLedger) -> (tracker: SimpleTimeTracker)
        requires
            ledger.wf(),
        ensures
            tracker.wf(),
            tracker@ == (TrackerState {
                is_dark_mode: true,
                clock: TimerClock { is_running: false, start_instant: now, pause_instant: now },
                ledger: ledger@,
                time_input: Seq::empty(),
                description_input: Seq::empty(),
                index_input: Seq::empty(),
            }),
    {
        SimpleTimeTracker {
            is_dark_mode: true,
            clock: TimerClock::new(now),
            ledger,
            time_input: String::new(),
            description_input: String::new(),
            index_input: String::new(),
        }
    }

    /// Whether the tracker is well formed.
    pub fn is_valid(&self) -> (valid: bool)
        ensures
            valid == self.wf(),
    {
        self.clock.is_valid() && self.ledger.is_valid()
    }

    /// The window title.
    pub fn title(&self) -> (title: String)
        ensures
            title@ == "Simple Time Tracker"@,
    {
        "Simple Time Tracker".to_owned()
    }

    /// Whether the periodic tick is wanted: only while the clock runs.
    pub fn subscription(&self) -> (ticking: bool)
        ensures
            ticking == self.clock.is_running,
    {
        self.clock.is_running
    }

    /// Commits the duration that the time buffer asks for, at the instant
    /// `now`: to a new entry named by the description buffer, or to the
    /// entry whose position the index buffer names. On success the three
    /// buffers are emptied and the clock gives up the duration; on any
    /// failure nothing changes.
    pub fn apply_operation_at(&mut self, now: i64) -> (outcome: ApplyOutcome)
        requires
            old(self).wf(),
        ensures
            final(self).wf(),
            outcome == old(self)@.apply_outcome(now),
            final(self)@ == old(self)@.applied(now),
    {
        if !self.clock.is_readable_at(now) {
            return ApplyOutcome::ClockBehind;
        }
        let bound = self.clock.current_elapsed_at(now);
        let duration = match parse_duration(self.time_input.as_str(), bound) {
            Some(duration) => duration,
            None => { return ApplyOutcome::DurationRefused; },
        };
        if duration > bound {
            return ApplyOutcome::Overdrawn;
        }
        let has_description = !self.description_input.as_str().is_empty();
        let has_index = !self.index_input.as_str().is_empty();
        if has_description == has_index {
            return ApplyOutcome::TargetUnclear;
        }
        let outcome = if has_description {
            let description = self.description_input.clone();
            self.ledger.append(description, duration);
            ApplyOutcome::Appended
        } else {
            let digits = chars_of(self.index_input.as_str());
            assert(digits@.subrange(0, digits.len() as int) =~= digits@);
            let position = match read_numeral(&digits, 0, digits.len()) {
                Some(position) => position,
                None => { return ApplyOutcome::NoSuchEntry; },
            };
            if position > self.ledger.len() as u64 {
                return ApplyOutcome::NoSuchEntry;
            }
            match self.ledger.merge(position as usize, duration) {
                Ok(()) => ApplyOutcome::Merged,
                Err(MergeError::OutOfRange) => { return ApplyOutcome::NoSuchEntry; },
                Err(MergeError::Overflow) => { return ApplyOutcome::Overflow; },
            }
        };
        self.time_input = String::new();
        self.description_input = String::new();
        self.index_input = String::new();
        self.clock.commit(duration, now);
        outcome
    }

    /// Deletes the entry at the 1-based `position`; every later entry moves
    /// down by one. Where there is no such entry nothing changes; the result
    /// says whether an entry was deleted.
    pub fn delete_entry(&mut self, position: usize) -> (deleted: bool)
        requires
            old(self).wf(),
        ensures
            final(self).wf(),
            deleted == (1 <= position <= old(self)@.ledger.len()),
            final(self)@ == old(self)@.without_entry(position as int),
    {
        self.ledger.delete(position)
    }

    /// The description of the entry at the 1-based `position`, or `None`
    /// where there is no such entry.
    pub fn copy_description(&self, position: usize) -> (text: Option<String>)
        ensures
            match text {
                Some(t) => 1 <= position <= self@.ledger.len() && t@ == self@.ledger[position
                    - 1].description,
                None => position == 0 || position > self@.ledger.len(),
            },
    {
        match self.ledger.get(position) {
            Some(entry) => Some(entry.description.clone()),
            None => None,
        }
    }

    /// Handles one message at the instant `now` and says what is left to do.
    pub fn update_at(&mut self, message: Message, now: i64) -> (effect: Effect)
        requires
            old(self).wf(),
        ensures
            final(self).wf(),
            final(self)@ == old(self)@.updated(message, now),
            effect@ == old(self)@.effect(message, now),
    {
        match message {
            Message::TimeUpdate => Effect::Nothing,
            Message::StartStopTimer => {
                if self.clock.is_switchable_at(now) {
                    self.clock.toggle_start_stop_at(now);
                }
                Effect::Nothing
            },
            Message::DarkModeToggle => {
                self.is_dark_mode = !self.is_dark_mode;
                Effect::Nothing
            },
            Message::TimeInputChanged(text) => {
                if accepts_time_text(text.as_str()) {
                    self.time_input = text;
                }
                Effect::Nothing
            },
            Message::DescriptionInputChanged(text) => {
                self.description_input = text;
                Effect::Nothing
            },
            Message::IndexInputChanged(text) => {
                if accepts_index_text(text.as_str()) {
                    self.index_input = text;
                }
                Effect::Nothing
            },
            Message::ApplyOperation => {
                match self.apply_operation_at(now) {
                    ApplyOutcome::Appended | ApplyOutcome::Merged => Effect::Persist,
                    _ => Effect::Nothing,
                }
            },
            Message::DeleteTrackedTime(position) => {
                if self.delete_entry(position) {
                    Effect::Persist
                } else {
                    Effect::Nothing
                }
            },
            Message::CopyText(position) => {
                match self.copy_description(position) {
                    Some(text) => Effect::CopyToClipboard(text),
                    None => Effect::Nothing,
                }
            },
        }
    }
}

impl SimpleTimeTracker {
    /// The clock's elapsed seconds at the instant `now`, or `None` where the
    /// clock runs and was started after `now`.
    pub fn get_current_duration_at(&self, now: i64) -> (elapsed: Option<u64>)
        requires
            self.wf(),
        ensures
            elapsed == self.clock.reading_at(now),
    {
        self.clock.read_at(now)
    }

    /// The clock's elapsed seconds by the wall clock.
    pub fn get_current_duration(&self) -> (elapsed: Option<u64>)
        requires
            self.wf(),
        ensures
            exists|now: i64| elapsed == #[trigger] self.clock.reading_at(now),
    {
        let now = wall_clock_seconds();
        self.get_current_duration_at(now)
    }

    /// Commits time as `apply_operation_at` does, at the instant that the
    /// wall clock shows.
    pub fn apply_operation(&mut self) -> (outcome: ApplyOutcome)
        requires
            old(self).wf(),
        ensures
            final(self).wf(),
            exists|now: i64|
                final(self)@ == #[trigger] old(self)@.applied(now) && outcome == old(
                    self,
                )@.apply_outcome(now),
    {
        let now = wall_clock_seconds();
        self.apply_operation_at(now)
    }

    /// Handles one message as `update_at` does, at the instant that the wall
    /// clock shows.
    pub fn update(&mut self, message: Message) -> (effect: Effect)
        requires
            old(self).wf(),
        ensures
            final(self).wf(),
            exists|now: i64|
                final(self)@ == #[trigger] old(self)@.updated(message, now) && effect@ == old(
                    self,
                )@.effect(message, now),
    {
        let now = wall_clock_seconds();
        self.update_at(message, now)
    }
}

/// No message breaks the tracker: after any message at any instant the
/// paused clock still shows no negative time and every entry still has a
/// description.
pub proof fn lemma_update_keeps_wf(state: TrackerState, message: Message, now: i64)
    requires
        state.wf(),
    ensures
        state.updated(message, now).wf(),
{
    match message {
        Message::ApplyOperation => {
            if state.apply_outcome(now) is Merged {
                let duration = state.requested_duration(now).unwrap();
                lemma_total_after_merge(state.ledger, state.target_position(), duration);
                let merged = state.applied(now).ledger;
                assert forall|i: int| 0 <= i < merged.len() implies (#[trigger] merged[i]).description.len()
                    > 0 by {
                    assert(state.ledger[i].description.len() > 0);
                }
            }
        },
        _ => {},
    }
}

/// A commit conserves time. Where committing succeeds with duration `d`, the
/// clock's elapsed time at that instant falls by exactly `d` and the ledger's
/// total rises by exactly `d`: as a new last entry of duration `d` under the
/// description given, or as `d` more on the targeted entry, every other
/// entry staying as it was.
pub proof fn lemma_commit_conserves_time(state: TrackerState, now: i64)
    requires
        state.wf(),
        state.apply_outcome(now) is Appended || state.apply_outcome(now) is Merged,
    ensures
        state.requested_duration(now) is Some,
        state.applied(now).wf(),
        state.applied(now).clock.is_running == state.clock.is_running,
        state.applied(now).clock.elapsed_at(now) == state.clock.elapsed_at(now)
            - state.requested_duration(now).unwrap(),
        total_duration(state.applied(now).ledger) == total_duration(state.ledger)
            + state.requested_duration(now).unwrap(),
        state.apply_outcome(now) is Appended ==> state.applied(now).ledger == state.ledger.push(
            Entry {
                description: state.description_input,
                duration: state.requested_duration(now).unwrap(),
            },
        ),
        state.apply_outcome(now) is Merged ==> {
            let target = state.target_position() - 1;
            &&& 0 <= target < state.ledger.len()
            &&& state.applied(now).ledger.len() == state.ledger.len()
            &&& state.applied(now).ledger[target].duration == state.ledger[target].duration
                + state.requested_duration(now).unwrap()
            &&& state.applied(now).ledger[target].description == state.ledger[target].description
            &&& forall|i: int|
                0 <= i < state.ledger.len() && i != target ==> state.applied(now).ledger[i]
                    == state.ledger[i]
        },
{
    let duration = state.requested_duration(now).unwrap();
    if state.apply_outcome(now) is Appended {
        lemma_total_after_append(
            state.ledger,
            Entry { description: state.description_input, duration },
        );
    } else {
        lemma_total_after_merge(state.ledger, state.target_position(), duration);
    }
}

/// The choice of target is exclusive: with both a description and an entry
/// number, or with neither, committing changes nothing, whatever else holds.
pub proof fn lemma_unclear_target_changes_nothing(state: TrackerState, now: i64)
    requires
        (state.description_input.len() > 0) == (state.index_input.len() > 0),
    ensures
        !(state.apply_outcome(now) is Appended),
        !(state.apply_outcome(now) is Merged),
        state.applied(now) == state,
        state.updated(Message::ApplyOperation, now) == state,
        state.effect(Message::ApplyOperation, now) == EffectView::Nothing,
{
}

/// A commit that fails, for whatever reason, changes nothing.
pub proof fn lemma_failed_commit_changes_nothing(state: TrackerState, now: i64)
    requires
        !(state.apply_outcome(now) is Appended),
        !(state.apply_outcome(now) is Merged),
    ensures
        state.applied(now) == state,
{
}

/// Only a start/stop changes whether the clock runs, and it always does
/// where the clock can switch.
pub proof fn lemma_only_start_stop_switches(state: TrackerState, message: Message, now: i64)
    ensures
        state.updated(message, now).clock.is_running != state.clock.is_running <==> message
            is StartStopTimer && state.clock.switchable_at(now),
{
}

/// The tick changes nothing and asks for nothing.
pub proof fn lemma_tick_changes_nothing(state: TrackerState, now: i64)
    ensures
        state.updated(Message::TimeUpdate, now) == state,
        state.effect(Message::TimeUpdate, now) == EffectView::Nothing,
{
}

} // verus!
