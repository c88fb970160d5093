//! The ledger: named durations in the order in which they were added. An
//! entry is addressed by its position, counted from one; positions are not
//! stable, since deleting an entry moves every later one down.

use vstd::prelude::*;

verus! {

/// What a ledger entry holds, as plain values.
pub struct Entry {
    pub description: Seq<char>,
    pub duration: u64,
}

/// One named duration, in whole seconds.
#[derive(Debug)]
pub struct TrackedTime {
    pub description: String,
    pub duration: u64,
}

impl View for TrackedTime {
    type V = Entry;

    open spec fn view(&self) -> Entry {
        Entry { description: self.description@, duration: self.duration }
    }
}

impl Clone for TrackedTime {
    fn clone(&self) -> (copy: TrackedTime)
        ensures
            copy@ == self@,
    {
        TrackedTime { description: self.description.clone(), duration: self.duration }
    }
}

impl TrackedTime {
    /// An entry of `duration` seconds under `description`.
    pub fn new(duration: u64, description: String) -> (entry: TrackedTime)
        ensures
            entry@ == (Entry { description: description@, duration }),
    {
        TrackedTime { description, duration }
    }
}

/// Sum of the durations of `entries`, in seconds.
pub open spec fn total_duration(entries: Seq<Entry>) -> nat
    decreases entries.len(),
{
    if entries.len() == 0 {
        0
    } else {
        total_duration(entries.drop_last()) + entries.last().duration as nat
    }
}

/// Every entry of `entries` has a description.
pub open spec fn all_described(entries: Seq<Entry>) -> bool {
    forall|i: int| 0 <= i < entries.len() ==> (#[trigger] entries[i]).description.len() > 0
}

/// `entries` with `duration` more seconds at the 1-based `position`.
pub open spec fn with_added(entries: Seq<Entry>, position: int, duration: u64) -> Seq<Entry>
    recommends
        1 <= position <= entries.len(),
{
    entries.update(
        position - 1,
        Entry {
            description: entries[position - 1].description,
            duration: (entries[position - 1].duration + duration) as u64,
        },
    )
}

/// Why a merge left the ledger as it was.
#[derive(Clone, Copy, Debug, PartialEq, Eq, Structural)]
pub enum MergeError {
    /// The position is zero or beyond the last entry.
    OutOfRange,
    /// The entry's duration would no longer fit in `u64`.
    Overflow,
}

/// The entries that time has been committed to, oldest first.
#[derive(Debug)]
pub struct TrackedTimeLedger {
    pub entries: Vec<TrackedTime>,
}

impl View for TrackedTimeLedger {
    type V = Seq<Entry>;

    open spec fn view(&self) -> Seq<Entry> {
        self.entries@.map_values(|t: TrackedTime| t@)
    }
}

impl TrackedTimeLedger {
    /// No entry is without a description.
    pub open spec fn wf(&self) -> bool {
        all_described(self@)
    }

    /// A ledger without entries.
    pub fn new() -> (ledger: TrackedTimeLedger)
        ensures
            ledger@ == Seq::<Entry>::empty(),
            ledger.wf(),
    {
        let ledger = TrackedTimeLedger { entries: Vec::new() };
        assert(ledger@ =~= Seq::<Entry>::empty());
        ledger
    }

    /// Whether every entry has a description.
    pub fn is_valid(&self) -> (valid: bool)
        ensures
            valid == self.wf(),
    {
        let mut i: usize = 0;
        while i < self.entries.len()
            invariant
                i <= self.entries.len(),
                forall|j: int| 0 <= j < i ==> (#[trigger] self@[j]).description.len() > 0,
            decreases self.entries.len() - i,
        {
            assert(self@[i as int] == self.entries@[i as int]@);
            if self.entries[i].description.as_str().is_empty() {
                return false;
            }
            i += 1;
        }
        true
    }

    /// Number of entries.
    pub fn len(&self) -> (n: usize)
        ensures
            n == self@.len(),
    {
        self.entries.len()
    }

    /// The entry at the 1-based `position`, or `None` where there is none.
    pub fn get(&self, position: usize) -> (entry: Option<&TrackedTime>)
        ensures
            match entry {
                Some(e) => 1 <= position <= self@.len() && e@ == self@[position - 1],
                None => position == 0 || position > self@.len(),
            },
    {
        if position == 0 || position > self.entries.len() {
            None
        } else {
            Some(&self.entries[position - 1])
        }
    }

    /// Adds an entry at the end. An empty description is refused and leaves
    /// the ledger as it was; the result says whether the entry was added.
    pub fn append(&mut self, description: String, duration: u64) -> (added: bool)
        requires
            old(self).wf(),
        ensures
            final(self).wf(),
            added == (description@.len() > 0),
            added ==> final(self)@ == old(self)@.push(Entry { description: description@, duration }),
            !added ==> final(self)@ == old(self)@,
    {
        if description.as_str().is_empty() {
            return false;
        }
        let ghost entry = Entry { description: description@, duration };
        self.entries.push(TrackedTime::new(duration, description));
        assert(self@ =~= old(self)@.push(entry));
        true
    }

    /// Adds `duration` seconds to the entry at the 1-based `position`. Where
    /// there is no such entry, or the sum does not fit, nothing changes.
    pub fn merge(&mut self, position: usize, duration: u64) -> (merged: Result<(), MergeError>)
        requires
            old(self).wf(),
        ensures
            final(self).wf(),
            match merged {
                Ok(()) => {
                    &&& 1 <= position <= old(self)@.len()
                    &&& old(self)@[position - 1].duration + duration <= u64::MAX
                    &&& final(self)@ == with_added(old(self)@, position as int, duration)
                },
                Err(MergeError::OutOfRange) => {
                    &&& position == 0 || position > old(self)@.len()
                    &&& final(self)@ == old(self)@
                },
                Err(MergeError::Overflow) => {
                    &&& 1 <= position <= old(self)@.len()
                    &&& old(self)@[position - 1].duration + duration > u64::MAX
                    &&& final(self)@ == old(self)@
                },
            },
    {
        if position == 0 || position > self.entries.len() {
            return Err(MergeError::OutOfRange);
        }
        let index: usize = position - 1;
        assert(self@[index as int] == self.entries@[index as int]@);
        let sum = match self.entries[index].duration.checked_add(duration) {
            Some(sum) => sum,
            None => { return Err(MergeError::Overflow); },
        };
        let description = self.entries[index].description.clone();
        self.entries.set(index, TrackedTime::new(sum, description));
        assert(self@ =~= with_added(old(self)@, position as int, duration));
        Ok(())
    }

    /// Removes the entry at the 1-based `position`; every later entry moves
    /// down by one. Where there is no such entry nothing changes; the result
    /// says whether an entry was removed.
    pub fn delete(&mut self, position: usize) -> (deleted: bool)
        requires
            old(self).wf(),
        ensures
            final(self).wf(),
            deleted == (1 <= position <= old(self)@.len()),
            deleted ==> final(self)@ == old(self)@.remove(position - 1),
            !deleted ==> final(self)@ == old(self)@,
    {
        if position == 0 || position > self.entries.len() {
            return false;
        }
        self.entries.remove(position - 1);
        assert(self@ =~= old(self)@.remove(position - 1));
        true
    }
}

/// Appending an entry raises the ledger's total by the entry's duration.
pub proof fn lemma_total_after_append(entries: Seq<Entry>, entry: Entry)
    ensures
        total_duration(entries.push(entry)) == total_duration(entries) + entry.duration,
{
    assert(entries.push(entry).drop_last() =~= entries);
}

/// Merging raises the targeted entry by the merged duration, leaves every
/// other entry as it was, and raises the ledger's total by the same amount.
pub proof fn lemma_total_after_merge(entries: Seq<Entry>, position: int, duration: u64)
    requires
        1 <= position <= entries.len(),
        entries[position - 1].duration + duration <= u64::MAX,
    ensures
        with_added(entries, position, duration).len() == entries.len(),
        with_added(entries, position, duration)[position - 1].duration == entries[position
            - 1].duration + duration,
        with_added(entries, position, duration)[position - 1].description == entries[position
            - 1].description,
        forall|i: int|
            0 <= i < entries.len() && i != position - 1 ==> with_added(
                entries,
                position,
                duration,
            )[i] == entries[i],
        total_duration(with_added(entries, position, duration)) == total_duration(entries)
            + duration,
    decreases entries.len(),
{
    let merged = with_added(entries, position, duration);
    if position == entries.len() {
        assert(merged.drop_last() =~= entries.drop_last());
    } else {
        lemma_total_after_merge(entries.drop_last(), position, duration);
        assert(merged.drop_last() =~= with_added(entries.drop_last(), position, duration));
    }
}

/// After a delete, each place from the deleted one on holds what stood one
/// place later, and each earlier place holds what it held. Places are
/// counted from zero here: the entry at position `p` stands at place `p - 1`.
pub proof fn lemma_positions_after_delete(entries: Seq<Entry>, position: int)
    requires
        1 <= position <= entries.len(),
    ensures
        entries.remove(position - 1).len() == entries.len() - 1,
        forall|i: int|
            0 <= i < position - 1 ==> #[trigger] entries.remove(position - 1)[i] == entries[i],
        forall|i: int|
            position - 1 <= i < entries.len() - 1 ==> #[trigger] entries.remove(position - 1)[i]
                == entries[i + 1],
{
}

} // verus!
