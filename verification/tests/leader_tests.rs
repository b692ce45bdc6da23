use omnipaxos::ballot::Ballot;
use omnipaxos::leader::LeaderState;
use omnipaxos::log::LogSync;
use omnipaxos::messages::Promise;
use omnipaxos::promise::PromiseMetaData;
use omnipaxos::quorum::{FlexibleQuorum, Quorum};
use omnipaxos::sequence::{MessageStatus, SequenceNumber};
use omnipaxos::storage::{Entry, NoSnapshot};

#[derive(Clone, Debug, PartialEq)]
struct Value(u64);

impl Entry for Value {
    type Snapshot = NoSnapshot;
}

const PEERS: [u64; 3] = [6, 7, 8];

fn leader(majority: usize) -> LeaderState<Value> {
    LeaderState::<Value>::with(Ballot::with(1, 5, 1, 8), &PEERS, Quorum::Majority(majority))
}

fn sync(idx: usize) -> LogSync<Value> {
    LogSync { decided_snapshot: None, suffix: vec![Value(idx as u64)], sync_idx: idx, stopsign: None }
}

fn promise(n: u32, accepted_idx: usize, decided_idx: usize) -> Promise<Value> {
    Promise {
        n: Ballot::with(1, 5, 1, 8),
        n_accepted: Ballot::with(1, n, 1, 6),
        decided_idx,
        accepted_idx,
        log_sync: Some(sync(accepted_idx)),
    }
}

fn sorted(mut pids: Vec<u64>) -> Vec<u64> {
    pids.sort();
    pids
}

#[test]
fn preparable_peers_test() {
    let nodes = vec![6, 7, 8];
    let quorum = Quorum::Majority(2);
    let max_pid = 8;
    let leader_state = LeaderState::<Value>::with(Ballot::with(1, 1, 1, max_pid), &nodes, quorum);
    let prep_peers = leader_state.get_preparable_peers(&nodes);
    assert_eq!(prep_peers, nodes);

    let nodes = vec![7, 1, 100, 4, 6];
    let quorum = Quorum::Majority(3);
    let max_pid = 100;
    let leader_state = LeaderState::<Value>::with(Ballot::with(1, 1, 1, max_pid), &nodes, quorum);
    let prep_peers = leader_state.get_preparable_peers(&nodes);
    assert_eq!(prep_peers, nodes);
}

#[test]
fn preparable_peers_leave_out_those_with_a_higher_promise() {
    let mut state = leader(2);
    state.lost_promise(7);
    assert_eq!(state.get_preparable_peers(&PEERS), vec![6, 8]);
    assert_eq!(state.get_preparable_peers(&[7]), Vec::<u64>::new());
    assert_eq!(state.get_preparable_peers(&[8, 6, 8]), vec![8, 6, 8]);
    state.reset_promise(7);
    assert_eq!(state.get_preparable_peers(&PEERS), vec![6, 7, 8]);
    state.set_promise(promise(1, 0, 0), 6, true);
    assert_eq!(state.get_preparable_peers(&PEERS), vec![6, 7, 8]);
    state.lost_promise(6);
    assert_eq!(state.get_preparable_peers(&PEERS), vec![7, 8]);
}

#[test]
fn new_leader_knows_nothing() {
    let mut state = leader(2);
    assert_eq!(state.n_leader, Ballot::with(1, 5, 1, 8));
    assert_eq!(sorted(state.accepted_indexes.keys().copied().collect()), vec![6, 7, 8]);
    assert_eq!(state.get_promised_followers(), Vec::<u64>::new());
    assert_eq!(state.get_max_decided_idx(), 0);
    assert_eq!(*state.get_max_promise_meta(), PromiseMetaData::default());
    assert!(state.take_max_promise_sync().is_none());
    for pid in [6, 7, 8, 99] {
        assert_eq!(state.get_seq_num(pid), SequenceNumber { session: 0, counter: 0 });
        assert_eq!(state.get_accepted_idx(pid), 0);
        assert_eq!(state.get_decided_idx(pid), None);
        assert_eq!(state.get_latest_accept_meta(pid), None);
    }
}

#[test]
fn sequence_numbers_count_per_follower() {
    let mut state = leader(2);
    assert_eq!(state.next_seq_num(6), SequenceNumber { session: 0, counter: 1 });
    assert_eq!(state.next_seq_num(6), SequenceNumber { session: 0, counter: 2 });
    assert_eq!(state.get_seq_num(6), SequenceNumber { session: 0, counter: 2 });
    assert_eq!(state.get_seq_num(7), SequenceNumber { session: 0, counter: 0 });
    state.increment_seq_num_session(6);
    assert_eq!(state.get_seq_num(6), SequenceNumber { session: 1, counter: 0 });
    assert_eq!(state.next_seq_num(6), SequenceNumber { session: 1, counter: 1 });
}

#[test]
fn sequence_numbers_of_an_unknown_node() {
    let mut state = leader(2);
    state.increment_seq_num_session(42);
    assert_eq!(state.get_seq_num(42), SequenceNumber { session: 0, counter: 0 });
    assert_eq!(state.next_seq_num(42), SequenceNumber { session: 0, counter: 1 });
    state.increment_seq_num_session(42);
    assert_eq!(state.next_seq_num(42), SequenceNumber { session: 1, counter: 1 });
}

#[test]
fn next_message_is_expected_and_new_session_is_a_break() {
    let mut state = leader(2);
    let first = state.next_seq_num(7);
    let second = state.next_seq_num(7);
    assert!(first.check_msg_status(second) == MessageStatus::Expected);
    assert!(second.check_msg_status(first) == MessageStatus::Outdated);
    assert!(second.check_msg_status(second) == MessageStatus::Outdated);
    state.increment_seq_num_session(7);
    let fresh = state.next_seq_num(7);
    assert_eq!(fresh, SequenceNumber { session: 1, counter: 1 });
    assert!(second.check_msg_status(fresh) == MessageStatus::DroppedPreceding);
}

#[test]
fn promises_make_a_quorum() {
    let mut state = leader(2);
    assert!(!state.set_promise(promise(1, 3, 2), 6, true));
    assert!(!state.set_promise(promise(1, 3, 2), 6, true));
    assert!(state.set_promise(promise(1, 3, 2), 7, true));
    state.lost_promise(6);
    assert!(!state.set_promise(promise(1, 3, 2), 7, true));
    state.reset_promise(7);
    assert!(!state.set_promise(promise(1, 3, 2), 8, true));
}

#[test]
fn flexible_quorum_uses_read_and_write_sizes() {
    let flexible = FlexibleQuorum { read_quorum_size: 3, write_quorum_size: 1 };
    let mut state = LeaderState::<Value>::with(
        Ballot::with(1, 5, 1, 8),
        &PEERS,
        Quorum::with(Some(flexible), 3),
    );
    assert!(!state.set_promise(promise(1, 0, 0), 6, false));
    assert!(!state.set_promise(promise(1, 0, 0), 7, false));
    assert!(state.set_promise(promise(1, 0, 0), 8, false));
    assert!(!state.is_chosen(1));
    state.set_accepted_idx(6, 1);
    assert!(state.is_chosen(1));
}

#[test]
fn max_promise_follows_the_most_up_to_date_log() {
    let mut state = leader(2);
    state.set_promise(promise(2, 4, 1), 6, true);
    assert_eq!(state.get_max_promise_meta().pid, 6);
    // an older round does not count, however long its log is
    state.set_promise(promise(1, 9, 1), 7, true);
    assert_eq!(state.get_max_promise_meta().pid, 6);
    // nor does an equal log of another node
    state.set_promise(promise(2, 4, 1), 8, true);
    assert_eq!(state.get_max_promise_meta().pid, 6);
    // a longer log of the same round does
    state.set_promise(promise(2, 5, 3), 7, true);
    let max = *state.get_max_promise_meta();
    assert_eq!(max.pid, 7);
    assert_eq!(max.accepted_idx, 5);
    assert_eq!(max.decided_idx, 3);
    assert_eq!(max.n_accepted, Ballot::with(1, 2, 1, 6));
    // an unchecked promise is recorded but not compared
    state.set_promise(promise(7, 70, 70), 8, false);
    assert_eq!(state.get_max_promise_meta().pid, 7);
    assert_eq!(state.get_promise_meta(8).accepted_idx, 70);
    let sync = state.take_max_promise_sync().unwrap();
    assert_eq!(sync.sync_idx, 5);
    assert_eq!(sync.suffix, vec![Value(5)]);
    assert!(state.take_max_promise_sync().is_none());
    assert_eq!(state.get_max_promise_meta().pid, 7);
}

#[test]
fn promises_are_read_back_and_withdrawn() {
    let mut state = leader(3);
    state.set_promise(promise(1, 4, 2), 6, true);
    state.set_promise(promise(1, 4, 9), 7, true);
    state.set_promise(promise(1, 4, 3), 8, true);
    assert_eq!(state.get_promise_meta(7).decided_idx, 9);
    assert_eq!(state.get_promise_meta(7).pid, 7);
    assert_eq!(state.get_decided_idx(6), Some(2));
    assert_eq!(state.get_max_decided_idx(), 9);
    // the leader itself is no follower
    assert_eq!(sorted(state.get_promised_followers()), vec![6, 7]);
    state.lost_promise(7);
    assert_eq!(state.get_decided_idx(7), None);
    assert_eq!(state.get_max_decided_idx(), 3);
    assert_eq!(state.get_promised_followers(), vec![6]);
    state.reset_promise(6);
    assert_eq!(state.get_decided_idx(6), None);
    assert_eq!(state.get_promised_followers(), Vec::<u64>::new());
}

#[test]
fn promise_of_an_unknown_node_counts() {
    let mut state = leader(2);
    state.set_promise(promise(1, 4, 2), 6, true);
    assert!(state.set_promise(promise(1, 4, 2), 99, true));
    assert_eq!(sorted(state.get_promised_followers()), vec![6, 99]);
}

#[test]
fn chosen_needs_a_quorum_of_acceptors() {
    let mut state = leader(2);
    assert!(state.is_chosen(0));
    assert!(!state.is_chosen(1));
    state.set_accepted_idx(6, 5);
    assert!(!state.is_chosen(1));
    state.set_accepted_idx(8, 3);
    assert!(state.is_chosen(1));
    assert!(state.is_chosen(3));
    assert!(!state.is_chosen(4));
    state.set_accepted_idx(8, 5);
    assert!(state.is_chosen(3));
    assert!(state.is_chosen(5));
    assert_eq!(state.get_accepted_idx(8), 5);
    assert_eq!(state.get_accepted_idx(7), 0);
    state.set_accepted_idx(8, 0);
    assert!(!state.is_chosen(1));
}

#[test]
fn latest_accepts_carry_the_ballot_until_reset() {
    let mut state = leader(2);
    state.set_latest_accept_meta(6, Some(11));
    state.set_latest_accept_meta(42, Some(12));
    assert_eq!(state.get_latest_accept_meta(6), Some((Ballot::with(1, 5, 1, 8), 11)));
    assert_eq!(state.get_latest_accept_meta(42), Some((Ballot::with(1, 5, 1, 8), 12)));
    assert_eq!(state.get_latest_accept_meta(7), None);
    state.set_latest_accept_meta(42, None);
    assert_eq!(state.get_latest_accept_meta(42), None);
    state.set_latest_accept_meta(7, Some(1));
    state.reset_latest_accept_meta();
    for pid in [6, 7, 8, 42] {
        assert_eq!(state.get_latest_accept_meta(pid), None);
    }
}

#[test]
fn leader_state_is_cloned_with_its_maps() {
    let mut state = leader(2);
    state.next_seq_num(6);
    let copy = state.clone();
    state.next_seq_num(6);
    assert_eq!(copy.get_seq_num(6).counter, 1);
    assert_eq!(state.get_seq_num(6).counter, 2);
}
