//! What is saved and what is loaded: the ledger as rows of seconds and
//! description, and the clock and the theme as rows of key and value. The
//! storage itself is the caller's; this module converts and validates.
//!
//! The clock is saved under two keys. `running` says whether it ran, and
//! fixes what `time` means: for a running clock the instant from which it
//! counts, so that it goes on counting while nothing is open; for a paused
//! clock the elapsed seconds, which are shown again whenever it is restored.

use vstd::prelude::*;
use crate::clock::TimerClock;
use crate::ledger::{all_described, Entry, TrackedTimeLedger};
use crate::tracker::{SimpleTimeTracker, TrackerState};

verus! {

/// Key of the row that holds the clock's time: the start instant of a
/// running clock, the elapsed seconds of a paused one.
pub const TIME_KEY: &'static str = "time";

/// Key of the row that holds the run state: 1 for running, 0 for paused.
pub const RUNNING_KEY: &'static str = "running";

/// Key of the row that holds the theme: 1 for dark, 0 for light.
pub const DARKMODE_KEY: &'static str = "darkmode";

/// A ledger row as plain values: seconds, then description.
pub type LedgerRow = (i64, Seq<char>);

/// A state row as plain values: key, then value.
pub type StateRow = (Seq<char>, i64);

/// Ledger rows as plain values.
pub open spec fn ledger_rows(rows: Seq<(i64, String)>) -> Seq<LedgerRow> {
    rows.map_values(|row: (i64, String)| (row.0, row.1@))
}

/// State rows as plain values.
pub open spec fn state_rows(rows: Seq<(String, i64)>) -> Seq<StateRow> {
    rows.map_values(|row: (String, i64)| (row.0@, row.1))
}

/// A row that can stand in the ledger: no negative duration, and a
/// description.
pub open spec fn row_valid(row: LedgerRow) -> bool {
    row.0 >= 0 && row.1.len() > 0
}

/// What loading `rows` gives: one entry per row, in the rows' order, where
/// every row is valid; otherwise nothing.
pub open spec fn loaded_entries(rows: Seq<LedgerRow>) -> Option<Seq<Entry>> {
    if forall|i: int| 0 <= i < rows.len() ==> row_valid(#[trigger] rows[i]) {
        Some(rows.map_values(|row: LedgerRow| Entry { description: row.1, duration: row.0 as u64 }))
    } else {
        None
    }
}

/// Every duration of `entries` can be written as a signed 64-bit number.
pub open spec fn storable(entries: Seq<Entry>) -> bool {
    forall|i: int| 0 <= i < entries.len() ==> (#[trigger] entries[i]).duration <= i64::MAX
}

/// What saving `entries` writes: one row per entry, in the entries' order,
/// where every duration can be written; otherwise nothing.
pub open spec fn saved_rows(entries: Seq<Entry>) -> Option<Seq<LedgerRow>> {
    if storable(entries) {
        Some(entries.map_values(|entry: Entry| (entry.duration as i64, entry.description)))
    } else {
        None
    }
}

/// Builds the ledger from the rows that were read, in their order. `None`
/// where a row has a negative duration or no description.
pub fn load_tracked_times(rows: Vec<(i64, String)>) -> (ledger: Option<TrackedTimeLedger>)
    ensures
        match ledger {
            Some(l) => l.wf() && loaded_entries(ledger_rows(rows@)) == Some(l@),
            None => loaded_entries(ledger_rows(rows@)) is None,
        },
{
    let ghost all = ledger_rows(rows@);
    let mut ledger = TrackedTimeLedger::new();
    let mut i: usize = 0;
    while i < rows.len()
        invariant
            i <= rows.len(),
            all == ledger_rows(rows@),
            ledger.wf(),
            loaded_entries(all.subrange(0, i as int)) == Some(ledger@),
        decreases rows.len() - i,
    {
        let seconds = rows[i].0;
        assert(all[i as int] == (rows@[i as int].0, rows@[i as int].1@));
        if seconds < 0 || rows[i].1.as_str().is_empty() {
            assert(!row_valid(all[i as int]));
            return None;
        }
        let description = rows[i].1.clone();
        ledger.append(description, seconds as u64);
        proof {
            let before = all.subrange(0, i as int);
            let after = all.subrange(0, i + 1);
            assert(after =~= before.push(all[i as int]));
            assert forall|j: int| 0 <= j < after.len() implies row_valid(#[trigger] after[j]) by {
                if j < i {
                    assert(row_valid(before[j]));
                }
            }
            assert(loaded_entries(after).unwrap() =~= ledger@);
        }
        i += 1;
    }
    assert(all.subrange(0, i as int) =~= all);
    Some(ledger)
}

/// The value of the last row of `rows` whose key is `key`.
pub open spec fn last_value(rows: Seq<StateRow>, key: Seq<char>) -> Option<i64>
    decreases rows.len(),
{
    if rows.len() == 0 {
        None
    } else if rows.last().0 == key {
        Some(rows.last().1)
    } else {
        last_value(rows.drop_last(), key)
    }
}

/// No key occurs in two rows.
pub open spec fn keys_distinct(rows: Seq<StateRow>) -> bool {
    forall|i: int, j: int| 0 <= i < j < rows.len() ==> rows[i].0 != rows[j].0
}

/// Place of the first row of `rows` whose key is `key`, or `rows.len()`
/// where there is none.
pub open spec fn key_index(rows: Seq<StateRow>, key: Seq<char>) -> int
    decreases rows.len(),
{
    if rows.len() == 0 || rows[0].0 == key {
        0
    } else {
        1 + key_index(rows.drop_first(), key)
    }
}

/// `table` with `value` under `key`: in the place of the pair that had the
/// key, or at the end where none had it.
pub open spec fn with_pair(table: Seq<StateRow>, key: Seq<char>, value: i64) -> Seq<StateRow> {
    let place = key_index(table, key);
    if place < table.len() {
        table.update(place, (key, value))
    } else {
        table.push((key, value))
    }
}

/// The table that reading `rows` one after the other gives: every key once,
/// in the order in which the keys first came, each with the value that came
/// last under it.
pub open spec fn table_of(rows: Seq<StateRow>) -> Seq<StateRow>
    decreases rows.len(),
{
    if rows.len() == 0 {
        Seq::empty()
    } else {
        with_pair(table_of(rows.drop_last()), rows.last().0, rows.last().1)
    }
}

/// `key_index` is the one place before which no row has the key and at
/// which either a row has it or the rows end.
pub proof fn lemma_key_index(rows: Seq<StateRow>, key: Seq<char>, k: int)
    requires
        0 <= k <= rows.len(),
        forall|j: int| 0 <= j < k ==> rows[j].0 != key,
        k < rows.len() ==> rows[k].0 == key,
    ensures
        key_index(rows, key) == k,
    decreases k,
{
    if k > 0 {
        let rest = rows.drop_first();
        assert forall|j: int| 0 <= j < k - 1 implies rest[j].0 != key by {
            assert(rest[j] == rows[j + 1]);
        }
        lemma_key_index(rest, key, k - 1);
    }
}

/// `key_index` lies within the rows, no row before it has the key, and the
/// row at it has the key unless it is the end of the rows.
pub proof fn lemma_key_index_is_first(rows: Seq<StateRow>, key: Seq<char>)
    ensures
        0 <= key_index(rows, key) <= rows.len(),
        forall|j: int| 0 <= j < key_index(rows, key) ==> rows[j].0 != key,
        key_index(rows, key) < rows.len() ==> rows[key_index(rows, key)].0 == key,
    decreases rows.len(),
{
    if rows.len() > 0 && rows[0].0 != key {
        let rest = rows.drop_first();
        lemma_key_index_is_first(rest, key);
        assert forall|j: int| 0 <= j < key_index(rows, key) implies rows[j].0 != key by {
            if j > 0 {
                assert(rows[j] == rest[j - 1]);
            }
        }
    }
}

/// Putting a pair into a table keeps every key single.
pub proof fn lemma_with_pair_distinct(table: Seq<StateRow>, key: Seq<char>, value: i64)
    requires
        keys_distinct(table),
    ensures
        keys_distinct(with_pair(table, key, value)),
{
    lemma_key_index_is_first(table, key);
    let place = key_index(table, key);
    let after = with_pair(table, key, value);
    assert forall|i: int, j: int| 0 <= i < j < after.len() implies after[i].0 != after[j].0 by {
        if place < table.len() {
            assert(after[i].0 == table[i].0);
            assert(after[j].0 == table[j].0);
        } else if j < table.len() {
            assert(after[i] == table[i]);
            assert(after[j] == table[j]);
        } else {
            assert(after[i] == table[i]);
        }
    }
}

/// In the table of any rows every key is single.
pub proof fn lemma_table_of_distinct(rows: Seq<StateRow>)
    ensures
        keys_distinct(table_of(rows)),
    decreases rows.len(),
{
    if rows.len() > 0 {
        lemma_table_of_distinct(rows.drop_last());
        lemma_with_pair_distinct(table_of(rows.drop_last()), rows.last().0, rows.last().1);
    }
}

/// Where every key is single, the value under a key is the value of the one
/// row that has it; where no row has the key there is no value.
pub proof fn lemma_last_value_distinct(table: Seq<StateRow>, key: Seq<char>)
    requires
        keys_distinct(table),
    ensures
        forall|i: int|
            0 <= i < table.len() && (#[trigger] table[i]).0 == key ==> last_value(table, key)
                == Some(table[i].1),
        (forall|i: int| 0 <= i < table.len() ==> (#[trigger] table[i]).0 != key) ==> last_value(
            table,
            key,
        ) is None,
    decreases table.len(),
{
    if table.len() > 0 {
        let init = table.drop_last();
        assert forall|i: int, j: int| 0 <= i < j < init.len() implies init[i].0 != init[j].0 by {
            assert(init[i] == table[i]);
            assert(init[j] == table[j]);
        }
        lemma_last_value_distinct(init, key);
        if table.last().0 != key {
            assert forall|i: int| 0 <= i < table.len() && (#[trigger] table[i]).0
                == key implies last_value(table, key) == Some(table[i].1) by {
                assert(init[i] == table[i]);
            }
            if forall|i: int| 0 <= i < table.len() ==> (#[trigger] table[i]).0 != key {
                assert forall|i: int| 0 <= i < init.len() implies (#[trigger] init[i]).0
                    != key by {
                    assert(init[i] == table[i]);
                }
            }
        }
    }
}

/// Putting a pair into a table sets the value under its key and leaves the
/// value under every other key as it was.
pub proof fn lemma_with_pair_value(
    table: Seq<StateRow>,
    key: Seq<char>,
    value: i64,
    other: Seq<char>,
)
    requires
        keys_distinct(table),
    ensures
        last_value(with_pair(table, key, value), other) == if other == key {
            Some(value)
        } else {
            last_value(table, other)
        },
{
    lemma_key_index_is_first(table, key);
    lemma_with_pair_distinct(table, key, value);
    let place = key_index(table, key);
    let after = with_pair(table, key, value);
    lemma_last_value_distinct(after, other);
    lemma_last_value_distinct(table, other);
    if other == key {
        assert(after[place] == (key, value));
    } else if exists|i: int| 0 <= i < table.len() && (#[trigger] table[i]).0 == other {
        let i = choose|i: int| 0 <= i < table.len() && (#[trigger] table[i]).0 == other;
        assert(after[i] == table[i]);
    } else {
        assert forall|i: int| 0 <= i < after.len() implies (#[trigger] after[i]).0 != other by {
            if i < table.len() && i != place {
                assert(after[i] == table[i]);
            }
        }
    }
}

/// Looking a key up in the table gives the value that was stored last under
/// it, and nothing where no row had the key.
pub proof fn lemma_table_lookup(rows: Seq<StateRow>, key: Seq<char>)
    ensures
        last_value(table_of(rows), key) == last_value(rows, key),
    decreases rows.len(),
{
    if rows.len() > 0 {
        let init = rows.drop_last();
        lemma_table_lookup(init, key);
        lemma_table_of_distinct(init);
        lemma_with_pair_value(table_of(init), rows.last().0, rows.last().1, key);
    }
}

/// Rows in which every key is single are their own table: every pair that
/// was stored is returned, in its place and with its value, and no other.
pub proof fn lemma_distinct_rows_kept(rows: Seq<StateRow>)
    requires
        keys_distinct(rows),
    ensures
        table_of(rows) == rows,
    decreases rows.len(),
{
    if rows.len() > 0 {
        let init = rows.drop_last();
        assert forall|i: int, j: int| 0 <= i < j < init.len() implies init[i].0 != init[j].0 by {
            assert(init[i] == rows[i]);
            assert(init[j] == rows[j]);
        }
        lemma_distinct_rows_kept(init);
        assert forall|j: int| 0 <= j < init.len() implies init[j].0 != rows.last().0 by {
            assert(init[j] == rows[j]);
        }
        lemma_key_index(init, rows.last().0, init.len() as int);
        assert(init.push(rows.last()) =~= rows);
    } else {
        assert(rows =~= Seq::<StateRow>::empty());
    }
}

/// The pairs of key and value that were read: every key once.
#[derive(Debug)]
pub struct SavedStates {
    pub pairs: Vec<(String, i64)>,
}

impl View for SavedStates {
    type V = Seq<StateRow>;

    open spec fn view(&self) -> Seq<StateRow> {
        state_rows(self.pairs@)
    }
}

impl SavedStates {
    /// No key occurs twice.
    pub open spec fn wf(&self) -> bool {
        keys_distinct(self@)
    }

    /// A table without pairs.
    pub fn new() -> (states: SavedStates)
        ensures
            states@ == Seq::<StateRow>::empty(),
            states.wf(),
    {
        let states = SavedStates { pairs: Vec::new() };
        assert(states@ =~= Seq::<StateRow>::empty());
        states
    }

    /// Number of pairs.
    pub fn len(&self) -> (n: usize)
        ensures
            n == self@.len(),
    {
        self.pairs.len()
    }

    /// The value under `key`, if a pair has that key.
    pub fn get(&self, key: &str) -> (value: Option<i64>)
        ensures
            value == last_value(self@, key@),
    {
        let wanted = key.to_owned();
        let mut value: Option<i64> = None;
        let mut i: usize = 0;
        while i < self.pairs.len()
            invariant
                i <= self.pairs.len(),
                wanted@ == key@,
                value == last_value(self@.subrange(0, i as int), key@),
            decreases self.pairs.len() - i,
        {
            proof {
                let after = self@.subrange(0, i + 1);
                assert(after.drop_last() =~= self@.subrange(0, i as int));
                assert(after.last() == (self.pairs@[i as int].0@, self.pairs@[i as int].1));
            }
            if self.pairs[i].0 == wanted {
                value = Some(self.pairs[i].1);
            }
            i += 1;
        }
        assert(self@.subrange(0, i as int) =~= self@);
        value
    }

    /// Puts `value` under `key`: in the place of the pair that had the key,
    /// or at the end where none had it.
    pub fn insert(&mut self, key: String, value: i64)
        requires
            old(self).wf(),
        ensures
            final(self).wf(),
            final(self)@ == with_pair(old(self)@, key@, value),
    {
        let mut place: usize = 0;
        while place < self.pairs.len() && !(self.pairs[place].0 == key)
            invariant
                place <= self.pairs.len(),
                forall|j: int| 0 <= j < place ==> self@[j].0 != key@,
            decreases self.pairs.len() - place,
        {
            assert(self@[place as int] == (self.pairs@[place as int].0@, self.pairs@[place as int].1));
            place += 1;
        }
        proof {
            if place < self.pairs.len() {
                assert(self@[place as int] == (
                    self.pairs@[place as int].0@,
                    self.pairs@[place as int].1,
                ));
            }
            lemma_key_index(self@, key@, place as int);
            lemma_with_pair_distinct(self@, key@, value);
        }
        if place < self.pairs.len() {
            self.pairs.set(place, (key, value));
        } else {
            self.pairs.push((key, value));
        }
        assert(self@ =~= with_pair(old(self)@, key@, value));
    }
}

/// Gathers the pairs of key and value that were read into a table: every
/// key once, in the order in which the keys first came. Of two rows with one
/// key the later gives the value.
pub fn load_states(rows: Vec<(String, i64)>) -> (states: SavedStates)
    ensures
        states.wf(),
        states@ == table_of(state_rows(rows@)),
{
    let ghost all = state_rows(rows@);
    let mut states = SavedStates::new();
    let mut i: usize = 0;
    while i < rows.len()
        invariant
            i <= rows.len(),
            all == state_rows(rows@),
            states.wf(),
            states@ == table_of(all.subrange(0, i as int)),
        decreases rows.len() - i,
    {
        proof {
            let after = all.subrange(0, i + 1);
            assert(after.drop_last() =~= all.subrange(0, i as int));
            assert(after.last() == (rows@[i as int].0@, rows@[i as int].1));
        }
        states.insert(rows[i].0.clone(), rows[i].1);
        i += 1;
    }
    assert(all.subrange(0, i as int) =~= all);
    states
}

/// What a saved 0 or 1 stands for. Any other value is corrupt.
pub open spec fn flag_of(value: i64) -> Option<bool> {
    if value == 0 {
        Some(false)
    } else if value == 1 {
        Some(true)
    } else {
        None
    }
}

/// The theme that a saved value stands for: dark where nothing was saved,
/// otherwise dark for 1 and light for 0.
pub open spec fn restored_theme(darkmode: Option<i64>) -> Option<bool> {
    match darkmode {
        None => Some(true),
        Some(value) => flag_of(value),
    }
}

/// The run state that a saved value stands for: paused where nothing was
/// saved, otherwise running for 1 and paused for 0.
pub open spec fn restored_run_state(running: Option<i64>) -> Option<bool> {
    match running {
        None => Some(false),
        Some(value) => flag_of(value),
    }
}

/// The clock that a saved run state and time stand for at `now`.
///
/// A running clock counts from the saved instant, as it did when it was
/// saved; without that instant the state is corrupt. A paused clock shows
/// the saved seconds, or zero where nothing was saved; a negative value is
/// corrupt, and so is one that reaches back beyond the earliest instant.
pub open spec fn restored_clock(now: i64, is_running: bool, time: Option<i64>) -> Option<
    TimerClock,
> {
    if is_running {
        match time {
            None => None,
            Some(start) => Some(
                TimerClock { is_running: true, start_instant: start, pause_instant: start },
            ),
        }
    } else {
        match time {
            None => Some(TimerClock { is_running: false, start_instant: now, pause_instant: now }),
            Some(seconds) => if seconds >= 0 && now - seconds >= i64::MIN {
                Some(
                    TimerClock {
                        is_running: false,
                        start_instant: (now - seconds) as i64,
                        pause_instant: now,
                    },
                )
            } else {
                None
            },
        }
    }
}

/// The tracker that a table of saved states and a loaded ledger stand for at
/// `now`: the restored clock and theme, the ledger, and empty buffers.
pub open spec fn restored_state(now: i64, table: Seq<StateRow>, ledger: Seq<Entry>) -> Option<
    TrackerState,
> {
    match (
        restored_run_state(last_value(table, RUNNING_KEY@)),
        restored_theme(last_value(table, DARKMODE_KEY@)),
    ) {
        (Some(is_running), Some(is_dark_mode)) => match restored_clock(
            now,
            is_running,
            last_value(table, TIME_KEY@),
        ) {
            Some(clock) => Some(
                TrackerState {
                    is_dark_mode,
                    clock,
                    ledger,
                    time_input: Seq::empty(),
                    description_input: Seq::empty(),
                    index_input: Seq::empty(),
                },
            ),
            None => None,
        },
        _ => None,
    }
}

/// The time that is saved for a clock: the start instant of a running
/// clock, the elapsed seconds of a paused one.
pub open spec fn saved_time(clock: TimerClock) -> int {
    if clock.is_running {
        clock.start_instant as int
    } else {
        clock.pause_instant - clock.start_instant
    }
}

/// The 0 or 1 that is saved for a flag.
pub open spec fn flag_value(flag: bool) -> i64 {
    if flag {
        1
    } else {
        0
    }
}

/// What saving the clock and the theme writes: the clock's time under
/// `TIME_KEY`, the theme under `DARKMODE_KEY` and the run state under
/// `RUNNING_KEY`; nothing where a paused clock shows more seconds than a
/// signed 64-bit number holds.
pub open spec fn saved_states(state: TrackerState) -> Option<Seq<StateRow>> {
    if saved_time(state.clock) <= i64::MAX {
        Some(
            seq![
                (TIME_KEY@, saved_time(state.clock) as i64),
                (DARKMODE_KEY@, flag_value(state.is_dark_mode)),
                (RUNNING_KEY@, flag_value(state.clock.is_running)),
            ],
        )
    } else {
        None
    }
}

/// Reads a saved 0 or 1.
fn read_flag(value: i64) -> (flag: Option<bool>)
    ensures
        flag == flag_of(value),
{
    if value == 0 {
        Some(false)
    } else if value == 1 {
        Some(true)
    } else {
        None
    }
}

impl SimpleTimeTracker {
    /// Builds the tracker from what was loaded, at the instant `now`. `None`
    /// where a saved value is corrupt.
    pub fn restore(now: i64, states: &SavedStates, ledger: TrackedTimeLedger) -> (tracker: Option<
        SimpleTimeTracker,
    >)
        requires
            ledger.wf(),
        ensures
            match tracker {
                Some(t) => t.wf() && restored_state(now, states@, ledger@) == Some(t@),
                None => restored_state(now, states@, ledger@) is None,
            },
    {
        let is_running = match states.get(RUNNING_KEY) {
            None => false,
            Some(value) => match read_flag(value) {
                Some(flag) => flag,
                None => { return None; },
            },
        };
        let is_dark_mode = match states.get(DARKMODE_KEY) {
            None => true,
            Some(value) => match read_flag(value) {
                Some(flag) => flag,
                None => { return None; },
            },
        };
        let clock = match states.get(TIME_KEY) {
            None => {
                if is_running {
                    return None;
                }
                TimerClock::new(now)
            },
            Some(time) => {
                if is_running {
                    TimerClock { is_running: true, start_instant: time, pause_instant: time }
                } else {
                    if time < 0 {
                        return None;
                    }
                    match TimerClock::paused_with(now, time as u64) {
                        Some(clock) => clock,
                        None => { return None; },
                    }
                }
            },
        };
        Some(
            SimpleTimeTracker {
                is_dark_mode,
                clock,
                ledger,
                time_input: String::new(),
                description_input: String::new(),
                index_input: String::new(),
            },
        )
    }

    /// The rows to save for the ledger: one per entry, in order. `None`
    /// where a duration is too large to be written as a signed 64-bit
    /// number.
    pub fn store_tracked_times(&self) -> (rows: Option<Vec<(i64, String)>>)
        ensures
            match rows {
                Some(r) => saved_rows(self.ledger@) == Some(ledger_rows(r@)),
                None => saved_rows(self.ledger@) is None,
            },
    {
        let mut rows: Vec<(i64, String)> = Vec::new();
        let mut i: usize = 0;
        while i < self.ledger.entries.len()
            invariant
                i <= self.ledger.entries.len(),
                saved_rows(self.ledger@.subrange(0, i as int)) == Some(ledger_rows(rows@)),
            decreases self.ledger.entries.len() - i,
        {
            let entry = &self.ledger.entries[i];
            assert(entry@ == self.ledger@[i as int]);
            if entry.duration > i64::MAX as u64 {
                return None;
            }
            let ghost rows_before = ledger_rows(rows@);
            rows.push((entry.duration as i64, entry.description.clone()));
            proof {
                let before = self.ledger@.subrange(0, i as int);
                let after = self.ledger@.subrange(0, i + 1);
                assert(after =~= before.push(self.ledger@[i as int]));
                assert forall|j: int| 0 <= j < after.len() implies (#[trigger] after[j]).duration
                    <= i64::MAX by {
                    if j < i {
                        assert(before[j].duration <= i64::MAX);
                    }
                }
                let row = (entry.duration as i64, entry.description@);
                assert(ledger_rows(rows@) =~= rows_before.push(row));
                assert(saved_rows(after).unwrap() =~= saved_rows(before).unwrap().push(row));
            }
            i += 1;
        }
        assert(self.ledger@.subrange(0, i as int) =~= self.ledger@);
        Some(rows)
    }


    /// The rows of key and value to save for the clock and the theme. `None`
    /// where a paused clock shows more seconds than a signed 64-bit number
    /// holds.
    pub fn store_state(&self) -> (rows: Option<Vec<(String, i64)>>)
        requires
            self.wf(),
        ensures
            match rows {
                Some(r) => saved_states(self@) == Some(state_rows(r@)),
                None => saved_states(self@) is None,
            },
    {
        let time: i64 = if self.clock.is_running {
            self.clock.start_instant
        } else {
            let elapsed: i128 = self.clock.pause_instant as i128 - self.clock.start_instant as i128;
            if elapsed > i64::MAX as i128 {
                return None;
            }
            elapsed as i64
        };
        let theme: i64 = if self.is_dark_mode {
            1
        } else {
            0
        };
        let running: i64 = if self.clock.is_running {
            1
        } else {
            0
        };
        let mut rows: Vec<(String, i64)> = Vec::new();
        rows.push((TIME_KEY.to_owned(), time));
        rows.push((DARKMODE_KEY.to_owned(), theme));
        rows.push((RUNNING_KEY.to_owned(), running));
        assert(state_rows(rows@) =~= saved_states(self@).unwrap());
        Some(rows)
    }
}

/// What was saved loads back: the rows written for a ledger give that
/// ledger again, entry by entry and in the same order.
pub proof fn lemma_saved_ledger_loads_back(entries: Seq<Entry>)
    requires
        all_described(entries),
        storable(entries),
    ensures
        saved_rows(entries) is Some,
        loaded_entries(saved_rows(entries).unwrap()) == Some(entries),
{
    let rows = saved_rows(entries).unwrap();
    assert forall|i: int| 0 <= i < rows.len() implies row_valid(#[trigger] rows[i]) by {
        assert(entries[i].description.len() > 0);
        assert(entries[i].duration <= i64::MAX);
    }
    assert forall|i: int| 0 <= i < rows.len() implies loaded_entries(rows).unwrap()[i]
        == entries[i] by {
        assert(entries[i].duration <= i64::MAX);
    }
    assert(loaded_entries(rows).unwrap() =~= entries);
}

/// Rows that load were written from what they load to: saving the loaded
/// ledger gives the rows again.
pub proof fn lemma_loaded_rows_save_back(rows: Seq<LedgerRow>)
    requires
        loaded_entries(rows) is Some,
    ensures
        all_described(loaded_entries(rows).unwrap()),
        saved_rows(loaded_entries(rows).unwrap()) == Some(rows),
{
    let entries = loaded_entries(rows).unwrap();
    assert forall|i: int| 0 <= i < entries.len() implies (#[trigger] entries[i]).duration
        <= i64::MAX && entries[i].description.len() > 0 by {
        assert(row_valid(rows[i]));
    }
    assert forall|i: int| 0 <= i < rows.len() implies saved_rows(entries).unwrap()[i]
        == rows[i] by {
        assert(row_valid(rows[i]));
    }
    assert(saved_rows(entries).unwrap() =~= rows);
}

/// The three keys differ, so no row is taken for another.
pub proof fn lemma_keys_differ()
    ensures
        TIME_KEY@ != DARKMODE_KEY@,
        TIME_KEY@ != RUNNING_KEY@,
        DARKMODE_KEY@ != RUNNING_KEY@,
{
    reveal_strlit("time");
    reveal_strlit("darkmode");
    reveal_strlit("running");
    assert(TIME_KEY@.len() == 4);
    assert(DARKMODE_KEY@.len() == 8);
    assert(RUNNING_KEY@.len() == 7);
}

/// The run state is saved: a running and a paused tracker never write the
/// same rows, whatever else they hold.
pub proof fn lemma_run_state_is_saved(running: TrackerState, paused: TrackerState)
    requires
        running.clock.is_running,
        !paused.clock.is_running,
        saved_states(running) is Some,
        saved_states(paused) is Some,
    ensures
        saved_states(running).unwrap() != saved_states(paused).unwrap(),
        last_value(saved_states(running).unwrap(), RUNNING_KEY@) == Some(1i64),
        last_value(saved_states(paused).unwrap(), RUNNING_KEY@) == Some(0i64),
{
    reveal_with_fuel(last_value, 2);
    let a = saved_states(running).unwrap();
    let b = saved_states(paused).unwrap();
    assert(a[2].1 == 1);
    assert(b[2].1 == 0);
    assert(a.last() == a[2]);
    assert(b.last() == b[2]);
}

/// A saved clock and theme load back. Restoring from the table of what was
/// saved gives the theme saved and the run state saved. A clock that ran
/// comes back running from the same start, so that at every instant it shows
/// what the saved clock would show. A clock that was paused comes back
/// paused and shows the seconds saved, wherever `now` can reach back that
/// many seconds. The ledger and empty buffers stand beside them.
pub proof fn lemma_saved_state_restores(state: TrackerState, now: i64, ledger: Seq<Entry>)
    requires
        state.wf(),
        saved_states(state) is Some,
        !state.clock.is_running ==> now - saved_time(state.clock) >= i64::MIN,
    ensures
        table_of(saved_states(state).unwrap()) == saved_states(state).unwrap(),
        restored_state(now, table_of(saved_states(state).unwrap()), ledger) is Some,
        ({
            let restored = restored_state(
                now,
                table_of(saved_states(state).unwrap()),
                ledger,
            ).unwrap();
            &&& restored.is_dark_mode == state.is_dark_mode
            &&& restored.clock.is_running == state.clock.is_running
            &&& restored.clock.wf()
            &&& state.clock.is_running ==> restored.clock.start_instant
                == state.clock.start_instant
            &&& state.clock.is_running ==> forall|at: i64| #[trigger]
                restored.clock.elapsed_at(at) == state.clock.elapsed_at(at)
            &&& !state.clock.is_running ==> restored.clock.elapsed_at(now)
                == state.clock.elapsed_at(now)
            &&& restored.ledger == ledger
            &&& restored.time_input.len() == 0
            &&& restored.description_input.len() == 0
            &&& restored.index_input.len() == 0
        }),
{
    let rows = saved_states(state).unwrap();
    lemma_keys_differ();
    lemma_distinct_rows_kept(rows);
    reveal_with_fuel(last_value, 4);
    assert(rows.last() == rows[2]);
    assert(rows.drop_last().last() == rows[1]);
    assert(rows.drop_last().drop_last().last() == rows[0]);
}

} // verus!
