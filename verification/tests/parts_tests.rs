use omnipaxos::ballot::Ballot;
use omnipaxos::clock::LogicalClock;
use omnipaxos::defaults;
use omnipaxos::ids::{READ_ERROR_MSG, WRITE_ERROR_MSG};
use omnipaxos::log::{AcceptedMetaData, IndexEntry, LogEntry, SnapshottedEntry};
use omnipaxos::promise::PromiseMetaData;
use omnipaxos::quorum::{FlexibleQuorum, Quorum};
use omnipaxos::sequence::{MessageStatus, SequenceNumber};
use omnipaxos::storage::{ClusterConfig, Entry, StopSign};
use std::cmp::Ordering;

#[derive(Clone, Debug, PartialEq)]
struct Value(u64);

impl Entry for Value {
    type Snapshot = String;
}

fn seq(session: u64, counter: u64) -> SequenceNumber {
    SequenceNumber { session, counter }
}

fn meta(n: u32, accepted_idx: usize, decided_idx: usize, pid: u64) -> PromiseMetaData {
    PromiseMetaData { n_accepted: Ballot::with(1, n, 0, 1), accepted_idx, decided_idx, pid }
}

fn stopsign(nodes: Vec<u64>, metadata: Option<Vec<u8>>) -> StopSign {
    StopSign {
        next_config: ClusterConfig { configuration_id: 2, nodes, flexible_quorum: None },
        metadata,
    }
}

#[test]
fn ballots_compare_field_by_field() {
    assert!(Ballot::with(1, 9, 9, 9) < Ballot::with(2, 0, 0, 0));
    assert!(Ballot::with(1, 1, 9, 9) < Ballot::with(1, 2, 0, 0));
    assert!(Ballot::with(1, 1, 1, 9) < Ballot::with(1, 1, 2, 0));
    assert!(Ballot::with(1, 1, 1, 1) < Ballot::with(1, 1, 1, 2));
    let b = Ballot::with(1, 1, 1, 1);
    assert_eq!(b.partial_cmp(&b), Some(Ordering::Equal));
    assert_eq!(b.cmp(&Ballot::default()), Ordering::Greater);
    assert_eq!(Ballot::default(), Ballot::with(0, 0, 0, 0));
    assert!(Ballot::with(1, 2, 0, 0) > Ballot::with(1, 1, 9, 9));
}

#[test]
fn majority_quorum_sizes() {
    for (nodes, majority) in [(0, 1), (1, 1), (2, 2), (3, 2), (4, 3), (5, 3)] {
        let q = Quorum::with(None, nodes);
        assert!(q.is_prepare_quorum(majority));
        assert!(q.is_accept_quorum(majority));
        assert!(!q.is_prepare_quorum(majority - 1));
        assert!(!q.is_accept_quorum(majority - 1));
    }
    let q = Quorum::with(None, usize::MAX);
    assert!(q.is_prepare_quorum(usize::MAX / 2 + 1));
    assert!(!q.is_prepare_quorum(usize::MAX / 2));
}

#[test]
fn flexible_quorum_sizes() {
    let q = Quorum::with(Some(FlexibleQuorum { read_quorum_size: 4, write_quorum_size: 2 }), 5);
    assert!(q.is_prepare_quorum(4));
    assert!(!q.is_prepare_quorum(3));
    assert!(q.is_accept_quorum(2));
    assert!(!q.is_accept_quorum(1));
}

#[test]
fn message_status_by_sequence_number() {
    let at = seq(2, 5);
    assert!(at.check_msg_status(seq(2, 6)) == MessageStatus::Expected);
    assert!(at.check_msg_status(seq(2, 5)) == MessageStatus::Outdated);
    assert!(at.check_msg_status(seq(2, 4)) == MessageStatus::Outdated);
    assert!(at.check_msg_status(seq(1, 100)) == MessageStatus::Outdated);
    assert!(at.check_msg_status(seq(1, 6)) == MessageStatus::Outdated);
    assert!(at.check_msg_status(seq(2, 7)) == MessageStatus::DroppedPreceding);
    assert!(at.check_msg_status(seq(3, 1)) == MessageStatus::DroppedPreceding);
    assert!(at.check_msg_status(seq(3, 6)) == MessageStatus::DroppedPreceding);
    let last = seq(2, u64::MAX);
    assert!(last.check_msg_status(seq(3, 0)) == MessageStatus::DroppedPreceding);
}

#[test]
fn sequence_numbers_order_by_session_first() {
    assert!(seq(1, 9) < seq(2, 0));
    assert!(seq(1, 1) < seq(1, 2));
    assert!(seq(1, 2) <= seq(1, 2));
    assert!(seq(2, 0) > seq(1, 9));
    assert_eq!(seq(1, 2).cmp(&seq(1, 1)), Ordering::Greater);
    assert_eq!(seq(1, 2).partial_cmp(&seq(1, 2)), Some(Ordering::Equal));
    assert_eq!(SequenceNumber::default(), seq(0, 0));
}

#[test]
fn clock_fires_on_every_third_tick() {
    let mut clock = LogicalClock::with(3);
    let ticks: Vec<bool> = (0..7).map(|_| clock.tick_and_check_timeout()).collect();
    assert_eq!(ticks, vec![false, false, true, false, false, true, false]);
}

#[test]
fn clock_with_timeout_one_fires_always() {
    let mut clock = LogicalClock::with(1);
    for _ in 0..4 {
        assert!(clock.tick_and_check_timeout());
    }
}

#[test]
fn clock_without_timeout_never_fires() {
    let mut clock = LogicalClock::with(0);
    for _ in 0..1000 {
        assert!(!clock.tick_and_check_timeout());
    }
}

#[test]
fn promises_compare_by_round_and_length() {
    assert!(meta(2, 1, 0, 1) > meta(1, 9, 0, 1));
    assert!(meta(2, 3, 0, 1) > meta(2, 2, 0, 1));
    assert!(meta(1, 9, 0, 1) < meta(2, 1, 0, 1));
    assert_eq!(meta(2, 3, 0, 1).partial_cmp(&meta(2, 3, 8, 1)), Some(Ordering::Equal));
    assert!(meta(2, 3, 0, 1) == meta(2, 3, 8, 1));
    assert!(meta(2, 3, 0, 1) != meta(2, 3, 0, 2));
    // promises of two nodes for equal logs: neither exceeds the other
    assert_eq!(meta(2, 3, 0, 1).partial_cmp(&meta(2, 3, 0, 2)), Some(Ordering::Less));
    assert_eq!(meta(2, 3, 0, 2).partial_cmp(&meta(2, 3, 0, 1)), Some(Ordering::Less));
    assert!(PromiseMetaData::default() == PromiseMetaData { n_accepted: Ballot::default(), accepted_idx: 0, decided_idx: 0, pid: 0 });
}

#[test]
fn log_entries_compare_by_kind_and_content() {
    let decided: LogEntry<Value> = LogEntry::Decided(Value(1));
    let undecided: LogEntry<Value> = LogEntry::Undecided(Value(1));
    assert!(decided == LogEntry::Decided(Value(1)));
    assert!(decided != LogEntry::Decided(Value(2)));
    assert!(decided != undecided);
    assert!(undecided == undecided.clone());
    assert!(LogEntry::<Value>::Trimmed(4) == LogEntry::Trimmed(4));
    assert!(LogEntry::<Value>::Trimmed(4) != LogEntry::Trimmed(5));
    let snap = |idx: usize, s: &str| -> LogEntry<Value> {
        LogEntry::Snapshotted(SnapshottedEntry::with(idx, s.to_string()))
    };
    assert!(snap(3, "a") == snap(3, "a"));
    assert!(snap(3, "a") != snap(3, "b"));
    assert!(snap(3, "a") != snap(4, "a"));
    assert!(snap(3, "a") == snap(3, "a").clone());
    let stop = |decided: bool| -> LogEntry<Value> {
        LogEntry::StopSign(stopsign(vec![1, 2], None), decided)
    };
    assert!(stop(true) == stop(true));
    assert!(stop(true) != stop(false));
    assert!(stop(true) != LogEntry::StopSign(stopsign(vec![1, 3], None), true));
    assert!(stop(true) != decided);
}

#[test]
fn snapshotted_entries_hold_what_they_are_made_with() {
    let entry: SnapshottedEntry<Value> = SnapshottedEntry::with(7, "state".to_string());
    assert_eq!(entry.trimmed_idx, 7);
    assert_eq!(entry.snapshot, "state");
    assert!(entry == entry.clone());
}

#[test]
fn stop_signs_compare_by_content() {
    assert!(stopsign(vec![1, 2], Some(vec![9])) == stopsign(vec![1, 2], Some(vec![9])));
    assert!(stopsign(vec![1, 2], Some(vec![9])) != stopsign(vec![1, 2], Some(vec![8])));
    assert!(stopsign(vec![1, 2], Some(vec![])) != stopsign(vec![1, 2], None));
    assert!(stopsign(vec![1, 2], None) != stopsign(vec![1], None));
    let mut other = stopsign(vec![1, 2], None);
    other.next_config.configuration_id = 3;
    assert!(other != stopsign(vec![1, 2], None));
    let mut flexible = stopsign(vec![1, 2], None);
    flexible.next_config.flexible_quorum =
        Some(FlexibleQuorum { read_quorum_size: 2, write_quorum_size: 1 });
    assert!(flexible != stopsign(vec![1, 2], None));
    assert!(flexible == flexible.clone());
}

#[test]
fn data_types_and_constants() {
    let flushed: AcceptedMetaData<Value> = AcceptedMetaData { accepted_idx: 2, entries: vec![Value(3)] };
    assert_eq!(flushed.accepted_idx, 2);
    assert_eq!(flushed.entries, vec![Value(3)]);
    assert!(matches!(IndexEntry::StopSign(stopsign(vec![1], None)), IndexEntry::StopSign(_)));
    assert!(!matches!(IndexEntry::Entry, IndexEntry::Compacted));
    assert_eq!(READ_ERROR_MSG, "Error reading from storage.");
    assert_eq!(WRITE_ERROR_MSG, "Error writing to storage.");
    assert_eq!(defaults::BUFFER_SIZE, 100000);
    assert_eq!(defaults::BLE_BUFFER_SIZE, 100);
    assert_eq!(defaults::ELECTION_TIMEOUT, 1);
    assert_eq!(defaults::RESEND_MESSAGE_TIMEOUT, 100);
    assert_eq!(defaults::FLUSH_BATCH_TIMEOUT, 200);
}
