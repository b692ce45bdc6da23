//! The forms in which parts of a log are handed around.
use crate::ids::TrimmedIndex;
use crate::storage::{Entry, SnapshotType, StopSign};
use vstd::prelude::*;
use vstd::std_specs::cmp::PartialEqSpec;

verus! {

/// Used to help another server synchronize their log with the current state of our own log.
#[derive(Clone, Debug)]
pub struct LogSync<T: Entry> {
    /// The decided snapshot.
    pub decided_snapshot: Option<SnapshotType<T>>,
    /// The log suffix.
    pub suffix: Vec<T>,
    /// The index of the log where the entries from `suffix` should be applied at (also the
    /// compacted idx of `decided_snapshot` if it exists).
    pub sync_idx: usize,
    /// The accepted StopSign.
    pub stopsign: Option<StopSign>,
}

/// The entry read in the log.
#[derive(Clone, Debug)]
pub enum LogEntry<T: Entry> {
    /// The entry is decided.
    Decided(T),
    /// The entry is NOT decided. Might be removed from the log at a later time.
    Undecided(T),
    /// The entry has been trimmed.
    Trimmed(TrimmedIndex),
    /// The entry has been snapshotted.
    Snapshotted(SnapshottedEntry<T>),
    /// This Sequence Paxos instance has been stopped for reconfiguration. The accompanying bool
    /// indicates whether the reconfiguration has been decided or not. If it is `true`, then the
    /// OmniPaxos instance for the new configuration can be started.
    StopSign(StopSign, bool),
}

/// A snapshot that stands for the entries below an index.
#[derive(Debug)]
pub struct SnapshottedEntry<T: Entry> {
    /// The index up to which the log has been snapshotted.
    pub trimmed_idx: TrimmedIndex,
    /// The snapshot.
    pub snapshot: T::Snapshot,
}

impl<T: Entry> SnapshottedEntry<T> {
    /// The snapshot of what lies below `trimmed_idx`.
    pub fn with(trimmed_idx: usize, snapshot: T::Snapshot) -> (entry: Self)
        ensures
            entry == (SnapshottedEntry::<T> { trimmed_idx, snapshot }),
    {
        SnapshottedEntry { trimmed_idx, snapshot }
    }
}

impl<T: Entry> Clone for SnapshottedEntry<T> {
    fn clone(&self) -> (entry: Self)
        ensures
            entry.trimmed_idx == self.trimmed_idx,
            cloned(self.snapshot, entry.snapshot),
    {
        SnapshottedEntry { trimmed_idx: self.trimmed_idx, snapshot: self.snapshot.clone() }
    }
}

impl<T: Entry> PartialEq for SnapshottedEntry<T> where
    T::Snapshot: PartialEq,
 {
    fn eq(&self, other: &Self) -> (r: bool)
        ensures
            self.trimmed_idx != other.trimmed_idx ==> !r,
            self.trimmed_idx == other.trimmed_idx ==> call_ensures(
                T::Snapshot::eq,
                (&self.snapshot, &other.snapshot),
                r,
            ),
    {
        self.trimmed_idx == other.trimmed_idx && self.snapshot == other.snapshot
    }
}

impl<T: Entry> vstd::std_specs::cmp::PartialEqSpecImpl for SnapshottedEntry<T> where
    T::Snapshot: PartialEq,
 {
    open spec fn obeys_eq_spec() -> bool {
        T::Snapshot::obeys_eq_spec()
    }

    open spec fn eq_spec(&self, other: &Self) -> bool {
        self.trimmed_idx == other.trimmed_idx && PartialEqSpec::eq_spec(&self.snapshot, &other.snapshot)
    }
}

impl<T: PartialEq + Entry> PartialEq for LogEntry<T> where
    T::Snapshot: PartialEq,
 {
    fn eq(&self, other: &Self) -> (r: bool)
        ensures
            match (self, other) {
                (LogEntry::Decided(v1), LogEntry::Decided(v2)) => call_ensures(T::eq, (v1, v2), r),
                (LogEntry::Undecided(v1), LogEntry::Undecided(v2)) => call_ensures(
                    T::eq,
                    (v1, v2),
                    r,
                ),
                (LogEntry::Trimmed(idx1), LogEntry::Trimmed(idx2)) => r == (idx1 == idx2),
                (LogEntry::Snapshotted(s1), LogEntry::Snapshotted(s2)) => {
                    &&& s1.trimmed_idx != s2.trimmed_idx ==> !r
                    &&& s1.trimmed_idx == s2.trimmed_idx ==> call_ensures(
                        T::Snapshot::eq,
                        (&s1.snapshot, &s2.snapshot),
                        r,
                    )
                },
                (LogEntry::StopSign(ss1, b1), LogEntry::StopSign(ss2, b2)) => r == (ss1.same_as(
                    *ss2,
                ) && b1 == b2),
                _ => !r,
            },
    {
        match (self, other) {
            (LogEntry::Decided(v1), LogEntry::Decided(v2)) => *v1 == *v2,
            (LogEntry::Undecided(v1), LogEntry::Undecided(v2)) => *v1 == *v2,
            (LogEntry::Trimmed(idx1), LogEntry::Trimmed(idx2)) => *idx1 == *idx2,
            (LogEntry::Snapshotted(s1), LogEntry::Snapshotted(s2)) => *s1 == *s2,
            (LogEntry::StopSign(ss1, b1), LogEntry::StopSign(ss2, b2)) => *ss1 == *ss2 && *b1
                == *b2,
            _ => false,
        }
    }
}

impl<T: PartialEq + Entry> vstd::std_specs::cmp::PartialEqSpecImpl for LogEntry<T> where
    T::Snapshot: PartialEq,
 {
    open spec fn obeys_eq_spec() -> bool {
        T::obeys_eq_spec() && T::Snapshot::obeys_eq_spec()
    }

    open spec fn eq_spec(&self, other: &Self) -> bool {
        match (self, other) {
            (LogEntry::Decided(v1), LogEntry::Decided(v2)) => PartialEqSpec::eq_spec(v1, v2),
            (LogEntry::Undecided(v1), LogEntry::Undecided(v2)) => PartialEqSpec::eq_spec(v1, v2),
            (LogEntry::Trimmed(idx1), LogEntry::Trimmed(idx2)) => idx1 == idx2,
            (LogEntry::Snapshotted(s1), LogEntry::Snapshotted(s2)) => PartialEqSpec::eq_spec(s1, s2),
            (LogEntry::StopSign(ss1, b1), LogEntry::StopSign(ss2, b2)) => ss1.same_as(*ss2)
                && b1 == b2,
            _ => false,
        }
    }
}

/// Where the equality of entries and that of snapshots are equivalences, so is that of what is read
/// in the log; what is decided never equals what is not.
pub proof fn law_log_entry_equality<T: PartialEq + Entry>(
    a: LogEntry<T>,
    b: LogEntry<T>,
    c: LogEntry<T>,
) where T::Snapshot: PartialEq
    requires
        forall|x: T| #[trigger] PartialEqSpec::eq_spec(&x, &x),
        forall|x: T, y: T| #[trigger]
            PartialEqSpec::eq_spec(&x, &y) ==> PartialEqSpec::eq_spec(&y, &x),
        forall|x: T, y: T, z: T|
            #![trigger PartialEqSpec::eq_spec(&x, &y), PartialEqSpec::eq_spec(&y, &z)]
            PartialEqSpec::eq_spec(&x, &y) && PartialEqSpec::eq_spec(&y, &z)
                ==> PartialEqSpec::eq_spec(&x, &z),
        forall|x: T::Snapshot| #[trigger] PartialEqSpec::eq_spec(&x, &x),
        forall|x: T::Snapshot, y: T::Snapshot| #[trigger]
            PartialEqSpec::eq_spec(&x, &y) ==> PartialEqSpec::eq_spec(&y, &x),
        forall|x: T::Snapshot, y: T::Snapshot, z: T::Snapshot|
            #![trigger PartialEqSpec::eq_spec(&x, &y), PartialEqSpec::eq_spec(&y, &z)]
            PartialEqSpec::eq_spec(&x, &y) && PartialEqSpec::eq_spec(&y, &z)
                ==> PartialEqSpec::eq_spec(&x, &z),
    ensures
        PartialEqSpec::eq_spec(&a, &a),
        PartialEqSpec::eq_spec(&a, &b) ==> PartialEqSpec::eq_spec(&b, &a),
        PartialEqSpec::eq_spec(&a, &b) && PartialEqSpec::eq_spec(&b, &c)
            ==> PartialEqSpec::eq_spec(&a, &c),
        a is Decided && b is Undecided ==> !PartialEqSpec::eq_spec(&a, &b),
{
}

/// What is at an index of the log: an entry, something already compacted, or a stop-sign.
#[derive(Clone, Debug)]
pub enum IndexEntry {
    /// An entry of the log.
    Entry,
    /// The index lies in the compacted part of the log.
    Compacted,
    /// The index is that of the stop-sign.
    StopSign(StopSign),
}

/// The entries flushed due to an append operation.
pub struct AcceptedMetaData<T: Entry> {
    /// The index up to which the log is accepted.
    pub accepted_idx: usize,
    /// The flushed entries.
    pub entries: Vec<T>,
}

} // verus!
