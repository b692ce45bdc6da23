//! The bookkeeping of a leader: who promised, how far each follower has accepted, and the sequence
//! numbers of the messages sent to them.
use crate::ballot::Ballot;
use crate::ids::NodeId;
use crate::log::LogSync;
use crate::messages::Promise;
use crate::node_map;
use crate::node_map::NodeMap;
use crate::promise::{PromiseMetaData, PromiseState};
use crate::quorum::Quorum;
use crate::sequence::SequenceNumber;
use crate::storage::Entry;
use vstd::prelude::*;

verus! {

/// The state of a leader in its ballot.
#[derive(Debug, Clone)]
pub struct LeaderState<T: Entry> {
    /// The ballot of this leader.
    pub n_leader: Ballot,
    promises_meta: NodeMap<PromiseState>,
    // the sequence number of accepts for each follower where AcceptSync has sequence number = 1
    follower_seq_nums: NodeMap<SequenceNumber>,
    /// The accepted index of each node.
    pub accepted_indexes: NodeMap<usize>,
    max_promise_meta: PromiseMetaData,
    max_promise_sync: Option<LogSync<T>>,
    latest_accept_meta: NodeMap<Option<(Ballot, usize)>>,
    /// The number of promises needed in the prepare phase to become synced and the number of
    /// accepteds needed in the accept phase to decide an entry.
    pub quorum: Quorum,
}

/// The contents of a leader's state.
#[verifier::ext_equal]
pub struct LeaderStateView<T: Entry> {
    pub n_leader: Ballot,
    /// The promise state of each node.
    pub promises: Map<NodeId, PromiseState>,
    /// The number of the last accept message sent to each follower.
    pub seq_nums: Map<NodeId, SequenceNumber>,
    /// The accepted index of each node.
    pub accepted: Map<NodeId, usize>,
    /// The most up-to-date promise among those that were checked for it.
    pub max_promise_meta: PromiseMetaData,
    /// The log update that came with that promise, until it is taken.
    pub max_promise_sync: Option<LogSync<T>>,
    /// For each follower the ballot and outgoing index of the latest cached accept message.
    pub latest_accepts: Map<NodeId, Option<(Ballot, usize)>>,
    pub quorum: Quorum,
}

/// The map that sends each of `pids` to `value`.
pub open spec fn each_to<V>(pids: Seq<NodeId>, value: V) -> Map<NodeId, V> {
    Map::new(|pid: NodeId| pids.contains(pid), |pid: NodeId| value)
}

impl<T: Entry> View for LeaderState<T> {
    type V = LeaderStateView<T>;

    closed spec fn view(&self) -> LeaderStateView<T> {
        LeaderStateView {
            n_leader: self.n_leader,
            promises: self.promises_meta@,
            seq_nums: self.follower_seq_nums@,
            accepted: self.accepted_indexes@,
            max_promise_meta: self.max_promise_meta,
            max_promise_sync: self.max_promise_sync,
            latest_accepts: self.latest_accept_meta@,
            quorum: self.quorum,
        }
    }
}

impl<T: Entry> LeaderStateView<T> {
    /// A leader that has heard of none of its peers yet.
    pub open spec fn initial(n_leader: Ballot, peers: Seq<NodeId>, quorum: Quorum) -> Self {
        LeaderStateView {
            n_leader,
            promises: each_to(peers, PromiseState::NotPromised),
            seq_nums: each_to(peers, SequenceNumber::zero()),
            accepted: each_to(peers, 0),
            max_promise_meta: PromiseMetaData::least(),
            max_promise_sync: None,
            latest_accepts: each_to(peers, None),
            quorum,
        }
    }

    /// Whether `pid` has promised this leader's ballot.
    pub open spec fn has_promised(self, pid: NodeId) -> bool {
        self.promises.contains_key(pid) && self.promises[pid] is Promised
    }

    /// The nodes that have promised this leader's ballot.
    pub open spec fn promised(self) -> Set<NodeId> {
        self.promises.dom().filter(|pid: NodeId| self.promises[pid] is Promised)
    }

    /// The nodes whose accepted index is at least `idx`.
    pub open spec fn accepted_up_to(self, idx: usize) -> Set<NodeId> {
        self.accepted.dom().filter(|pid: NodeId| self.accepted[pid] >= idx)
    }

    /// Whether enough nodes have promised.
    pub open spec fn is_prepared(self) -> bool {
        self.promised().len() >= self.quorum.prepare_size()
    }

    /// Whether enough nodes have accepted the log up to `idx`.
    pub open spec fn chosen(self, idx: usize) -> bool {
        self.accepted_up_to(idx).len() >= self.quorum.accept_size()
    }

    /// The sequence number of the last message to `pid`.
    pub open spec fn seq_num(self, pid: NodeId) -> SequenceNumber {
        if self.seq_nums.contains_key(pid) {
            self.seq_nums[pid]
        } else {
            SequenceNumber::zero()
        }
    }

    /// The decided index that `pid` promised with, if it has promised.
    pub open spec fn decided_idx(self, pid: NodeId) -> Option<usize> {
        if self.has_promised(pid) {
            Some(self.promises[pid]->Promised_0.decided_idx)
        } else {
            None
        }
    }

    /// The accepted index of `pid`, zero for an unknown node.
    pub open spec fn accepted_idx(self, pid: NodeId) -> usize {
        if self.accepted.contains_key(pid) {
            self.accepted[pid]
        } else {
            0
        }
    }

    /// The latest cached accept message to `pid`.
    pub open spec fn latest_accept(self, pid: NodeId) -> Option<(Ballot, usize)> {
        if self.latest_accepts.contains_key(pid) {
            self.latest_accepts[pid]
        } else {
            None
        }
    }

    /// Those of `peers`, in order, that have not promised a higher ballot.
    pub open spec fn preparable(self, peers: Seq<NodeId>) -> Seq<NodeId> {
        peers.filter(|pid: NodeId| !(self.promises[pid] is PromisedHigher))
    }

    /// Whether `idx` is the highest decided index among the promises, zero where there is none.
    pub open spec fn is_max_decided_idx(self, idx: usize) -> bool {
        &&& forall|pid: NodeId| #[trigger]
            self.has_promised(pid) ==> self.decided_idx(pid)->0 <= idx
        &&& idx == 0 || exists|pid: NodeId| #[trigger]
            self.has_promised(pid) && self.decided_idx(pid) == Some(idx)
    }

    /// `pid` starts a new session: the session number grows by one and the counter starts over.
    /// Nothing happens for an unknown node.
    pub open spec fn after_new_session(self, pid: NodeId) -> Self {
        if self.seq_nums.contains_key(pid) {
            LeaderStateView {
                seq_nums: self.seq_nums.insert(
                    pid,
                    SequenceNumber {
                        session: (self.seq_nums[pid].session + 1) as u64,
                        counter: 0,
                    },
                ),
                ..self
            }
        } else {
            self
        }
    }

    /// One more message is sent to `pid`.
    pub open spec fn after_next_message(self, pid: NodeId) -> Self {
        LeaderStateView {
            seq_nums: self.seq_nums.insert(
                pid,
                SequenceNumber {
                    session: self.seq_num(pid).session,
                    counter: (self.seq_num(pid).counter + 1) as u64,
                },
            ),
            ..self
        }
    }

    /// The promise state of `pid` becomes `state`.
    pub open spec fn after_promise_state(self, pid: NodeId, state: PromiseState) -> Self {
        LeaderStateView { promises: self.promises.insert(pid, state), ..self }
    }

    /// `from` promises with `prom`. Where the promise is to be checked and exceeds the most
    /// up-to-date one so far, it takes its place, together with its log update.
    pub open spec fn after_promise(self, prom: Promise<T>, from: NodeId, check_max_prom: bool) -> Self {
        let meta = promise_meta(prom, from);
        let promised = self.after_promise_state(from, PromiseState::Promised(meta));
        if check_max_prom && meta.exceeds(self.max_promise_meta) {
            LeaderStateView {
                max_promise_meta: meta,
                max_promise_sync: prom.log_sync,
                ..promised
            }
        } else {
            promised
        }
    }

    /// The accepted index of `pid` becomes `idx`.
    pub open spec fn after_accepted(self, pid: NodeId, idx: usize) -> Self {
        LeaderStateView { accepted: self.accepted.insert(pid, idx), ..self }
    }

    /// The log update of the most up-to-date promise is handed out.
    pub open spec fn after_sync_taken(self) -> Self {
        LeaderStateView { max_promise_sync: None, ..self }
    }

    /// The latest accept message to `pid` is the one at outgoing index `idx`, or there is none.
    pub open spec fn after_latest_accept(self, pid: NodeId, idx: Option<usize>) -> Self {
        let latest = match idx {
            Some(x) => Some((self.n_leader, x)),
            None => None,
        };
        LeaderStateView { latest_accepts: self.latest_accepts.insert(pid, latest), ..self }
    }

    /// There is no latest accept message to any of the followers.
    pub open spec fn after_latest_accepts_reset(self) -> Self {
        LeaderStateView {
            latest_accepts: self.latest_accepts.map_values(
                |latest: Option<(Ballot, usize)>| None::<(Ballot, usize)>,
            ),
            ..self
        }
    }

    /// Whether one operation on the state, of any kind, leads from this state to `next`.
    pub open spec fn leads_to(self, next: Self) -> bool {
        ||| exists|pid: NodeId|
            self.seq_num(pid).session < u64::MAX && next == #[trigger] self.after_new_session(pid)
        ||| exists|pid: NodeId|
            self.seq_num(pid).counter < u64::MAX && next == #[trigger] self.after_next_message(pid)
        ||| exists|pid: NodeId, state: PromiseState|
            !(state is Promised) && next == #[trigger] self.after_promise_state(pid, state)
        ||| exists|prom: Promise<T>, from: NodeId, check: bool|
            next == #[trigger] self.after_promise(prom, from, check)
        ||| exists|pid: NodeId, idx: usize| next == #[trigger] self.after_accepted(pid, idx)
        ||| exists|pid: NodeId, idx: Option<usize>|
            next == #[trigger] self.after_latest_accept(pid, idx)
        ||| next == self.after_latest_accepts_reset()
        ||| next == self.after_sync_taken()
    }

    /// Whether the state knows finitely many nodes, as every state does that the operations lead
    /// to.
    pub open spec fn is_finite(self) -> bool {
        &&& self.promises.dom().finite()
        &&& self.seq_nums.dom().finite()
        &&& self.accepted.dom().finite()
        &&& self.latest_accepts.dom().finite()
    }

    /// Whether no recorded promise exceeds the most up-to-date one.
    pub open spec fn max_promise_is_max(self) -> bool {
        forall|pid: NodeId| #[trigger]
            self.has_promised(pid) ==> !self.promises[pid]->Promised_0.exceeds(
                self.max_promise_meta,
            )
    }
}

/// What a promise of `from` says but for the log update.
pub open spec fn promise_meta<T: Entry>(prom: Promise<T>, from: NodeId) -> PromiseMetaData {
    PromiseMetaData {
        n_accepted: prom.n_accepted,
        accepted_idx: prom.accepted_idx,
        decided_idx: prom.decided_idx,
        pid: from,
    }
}

proof fn lemma_each_to_step<V>(pids: Seq<NodeId>, i: int, value: V)
    requires
        0 <= i < pids.len(),
    ensures
        each_to(pids.take(i + 1), value) == each_to(pids.take(i), value).insert(pids[i], value),
{
    let before = pids.take(i);
    let after = pids.take(i + 1);
    assert(after =~= before.push(pids[i]));
    assert forall|pid: NodeId| after.contains(pid) == (before.contains(pid) || pid == pids[i]) by {
        if before.contains(pid) {
            let j = choose|j: int| 0 <= j < before.len() && before[j] == pid;
            assert(after[j] == pid);
        }
        if pid == pids[i] {
            assert(after[i] == pid);
        }
    }
    assert(each_to(after, value) =~= each_to(before, value).insert(pids[i], value));
}

impl<T: Entry> LeaderState<T> {
    /// The state of a leader that has heard of none of its `peers` yet.
    pub fn with(n_leader: Ballot, peers: &[NodeId], quorum: Quorum) -> (state: Self)
        ensures
            state@ == LeaderStateView::<T>::initial(n_leader, peers@, quorum),
    {
        let mut promises_meta: NodeMap<PromiseState> = node_map::new();
        let mut follower_seq_nums: NodeMap<SequenceNumber> = node_map::new();
        let mut accepted_indexes: NodeMap<usize> = node_map::new();
        let mut latest_accept_meta: NodeMap<Option<(Ballot, usize)>> = node_map::new();
        let mut i: usize = 0;
        assert(promises_meta@ =~= each_to(peers@.take(0), PromiseState::NotPromised));
        assert(follower_seq_nums@ =~= each_to(peers@.take(0), SequenceNumber::zero()));
        assert(accepted_indexes@ =~= each_to(peers@.take(0), 0usize));
        assert(latest_accept_meta@ =~= each_to(peers@.take(0), None::<(Ballot, usize)>));
        while i < peers.len()
            invariant
                i <= peers@.len(),
                promises_meta@ == each_to(peers@.take(i as int), PromiseState::NotPromised),
                follower_seq_nums@ == each_to(peers@.take(i as int), SequenceNumber::zero()),
                accepted_indexes@ == each_to(peers@.take(i as int), 0usize),
                latest_accept_meta@ == each_to(peers@.take(i as int), None::<(Ballot, usize)>),
            decreases peers@.len() - i,
        {
            let peer = peers[i];
            node_map::insert(&mut promises_meta, peer, PromiseState::NotPromised);
            node_map::insert(&mut follower_seq_nums, peer, SequenceNumber::default());
            node_map::insert(&mut accepted_indexes, peer, 0);
            node_map::insert(&mut latest_accept_meta, peer, None);
            proof {
                lemma_each_to_step(peers@, i as int, PromiseState::NotPromised);
                lemma_each_to_step(peers@, i as int, SequenceNumber::zero());
                lemma_each_to_step(peers@, i as int, 0usize);
                lemma_each_to_step(peers@, i as int, None::<(Ballot, usize)>);
            }
            i = i + 1;
        }
        assert(peers@.take(i as int) =~= peers@);
        LeaderState {
            n_leader,
            promises_meta,
            follower_seq_nums,
            accepted_indexes,
            max_promise_meta: PromiseMetaData::default(),
            max_promise_sync: None,
            latest_accept_meta,
            quorum,
        }
    }

    /// Starts a new session with `pid`: the session number grows by one and the counter starts
    /// over. Nothing happens for an unknown node.
    pub fn increment_seq_num_session(&mut self, pid: NodeId)
        requires
            old(self)@.seq_nums.contains_key(pid) ==> old(self)@.seq_nums[pid].session < u64::MAX,
        ensures
            final(self)@ == old(self)@.after_new_session(pid),
    {
        if let Some(seq_num) = node_map::get_mut(&mut self.follower_seq_nums, pid) {
            seq_num.session = seq_num.session + 1;
            seq_num.counter = 0;
        }
    }

    /// The sequence number of the next message to `pid`.
    pub fn next_seq_num(&mut self, pid: NodeId) -> (seq_num: SequenceNumber)
        requires
            old(self)@.seq_num(pid).counter < u64::MAX,
        ensures
            final(self)@ == old(self)@.after_next_message(pid),
            seq_num == final(self)@.seq_num(pid),
            old(self)@.seq_num(pid).directly_followed_by(seq_num),
    {
        if let Some(seq_num) = node_map::get_mut(&mut self.follower_seq_nums, pid) {
            seq_num.counter = seq_num.counter + 1;
            *seq_num
        } else {
            let new_seq = SequenceNumber { counter: 1, session: 0 };
            node_map::insert(&mut self.follower_seq_nums, pid, new_seq);
            new_seq
        }
    }

    /// The sequence number of the last message to `pid`.
    pub fn get_seq_num(&self, pid: NodeId) -> (seq_num: SequenceNumber)
        ensures
            seq_num == self@.seq_num(pid),
    {
        match node_map::get(&self.follower_seq_nums, pid) {
            Some(seq_num) => *seq_num,
            None => SequenceNumber::default(),
        }
    }

    /// Records the promise of `from` and reports whether enough nodes have promised now. With
    /// `check_max_prom`, a promise for a more up-to-date log than any before is remembered as such,
    /// with the log update that came with it.
    pub fn set_promise(&mut self, prom: Promise<T>, from: NodeId, check_max_prom: bool) -> (prepared:
        bool)
        ensures
            final(self)@ == old(self)@.after_promise(prom, from, check_max_prom),
            final(self)@.promised().finite(),
            prepared == final(self)@.is_prepared(),
    {
        let promise_meta = PromiseMetaData {
            n_accepted: prom.n_accepted,
            accepted_idx: prom.accepted_idx,
            decided_idx: prom.decided_idx,
            pid: from,
        };
        if check_max_prom && promise_meta > self.max_promise_meta {
            self.max_promise_meta = promise_meta;
            self.max_promise_sync = prom.log_sync;
        }
        node_map::insert(&mut self.promises_meta, from, PromiseState::Promised(promise_meta));
        let num_promised = self.num_promised();
        self.quorum.is_prepare_quorum(num_promised)
    }

    /// The number of nodes that have promised.
    fn num_promised(&self) -> (n: usize)
        ensures
            self@.promised().finite(),
            n == self@.promised().len(),
    {
        let es = node_map::entries(&self.promises_meta);
        let ghost promises = self.promises_meta@;
        let ghost mut seen: Set<NodeId> = Set::empty();
        let mut n: usize = 0;
        let mut i: usize = 0;
        while i < es.len()
            invariant
                i <= es@.len(),
                node_map::is_walk(es@, promises),
                seen.finite(),
                seen.len() == n <= i,
                forall|pid: NodeId| #[trigger]
                    seen.contains(pid) ==> promises.contains_key(pid) && promises[pid] is Promised
                        && exists|j: int| 0 <= j < i && (#[trigger] es@[j]).0 == pid,
                forall|j: int|
                    0 <= j < i && promises[(#[trigger] es@[j]).0] is Promised ==> seen.contains(
                        es@[j].0,
                    ),
            decreases es@.len() - i,
        {
            let (pid, state) = es[i];
            if let PromiseState::Promised(_) = state {
                proof {
                    seen = seen.insert(pid);
                }
                n = n + 1;
            }
            i = i + 1;
        }
        assert(seen =~= self@.promised());
        n
    }

    /// Forgets what `pid` promised.
    pub fn reset_promise(&mut self, pid: NodeId)
        ensures
            final(self)@ == old(self)@.after_promise_state(pid, PromiseState::NotPromised),
    {
        node_map::insert(&mut self.promises_meta, pid, PromiseState::NotPromised);
    }

    /// Node `pid` seen with ballot greater than my ballot.
    pub fn lost_promise(&mut self, pid: NodeId)
        ensures
            final(self)@ == old(self)@.after_promise_state(pid, PromiseState::PromisedHigher),
    {
        node_map::insert(&mut self.promises_meta, pid, PromiseState::PromisedHigher);
    }

    /// Hands out the log update of the most up-to-date promise; it is gone afterwards.
    pub fn take_max_promise_sync(&mut self) -> (sync: Option<LogSync<T>>)
        ensures
            sync == old(self)@.max_promise_sync,
            final(self)@ == old(self)@.after_sync_taken(),
    {
        self.max_promise_sync.take()
    }

    /// The most up-to-date promise among those that were checked for it.
    pub fn get_max_promise_meta(&self) -> (meta: &PromiseMetaData)
        ensures
            *meta == self@.max_promise_meta,
    {
        &self.max_promise_meta
    }

    /// The highest decided index among the promises, zero where there is none.
    pub fn get_max_decided_idx(&self) -> (idx: usize)
        ensures
            self@.is_max_decided_idx(idx),
    {
        let es = node_map::entries(&self.promises_meta);
        let ghost promises = self.promises_meta@;
        let mut max: usize = 0;
        let mut i: usize = 0;
        while i < es.len()
            invariant
                i <= es@.len(),
                promises == self@.promises,
                node_map::is_walk(es@, promises),
                forall|j: int|
                    0 <= j < i && promises[(#[trigger] es@[j]).0] is Promised
                        ==> promises[es@[j].0]->Promised_0.decided_idx <= max,
                max == 0 || exists|pid: NodeId| #[trigger]
                    self@.has_promised(pid) && self@.decided_idx(pid) == Some(max),
            decreases es@.len() - i,
        {
            let (pid, state) = es[i];
            if let PromiseState::Promised(meta) = state {
                if meta.decided_idx > max {
                    max = meta.decided_idx;
                    assert(self@.has_promised(pid));
                }
            }
            i = i + 1;
        }
        max
    }

    /// What `pid` promised with.
    pub fn get_promise_meta(&self, pid: NodeId) -> (meta: &PromiseMetaData)
        requires
            self@.has_promised(pid),
        ensures
            self@.promises[pid] == PromiseState::Promised(*meta),
    {
        match node_map::get(&self.promises_meta, pid) {
            Some(PromiseState::Promised(metadata)) => metadata,
            _ => {
                // ruled out by the precondition
                assert(false);
                &self.max_promise_meta
            },
        }
    }

    /// Forgets the latest accept message of every follower.
    pub fn reset_latest_accept_meta(&mut self)
        ensures
            final(self)@ == old(self)@.after_latest_accepts_reset(),
    {
        let es = node_map::entries(&self.latest_accept_meta);
        let ghost latest = self.latest_accept_meta@;
        let mut cleared: NodeMap<Option<(Ballot, usize)>> = node_map::new();
        let mut i: usize = 0;
        while i < es.len()
            invariant
                i <= es@.len(),
                node_map::is_walk(es@, latest),
                forall|pid: NodeId| #[trigger]
                    cleared@.contains_key(pid) ==> cleared@[pid] is None && latest.contains_key(
                        pid,
                    ),
                forall|j: int| 0 <= j < i ==> cleared@.contains_key((#[trigger] es@[j]).0),
            decreases es@.len() - i,
        {
            node_map::insert(&mut cleared, es[i].0, None);
            i = i + 1;
        }
        assert(cleared@ =~= latest.map_values(
            |latest: Option<(Ballot, usize)>| None::<(Ballot, usize)>,
        ));
        self.latest_accept_meta = cleared;
    }

    /// The nodes other than the leader itself that have promised, each once. In which order they
    /// come is left open.
    pub fn get_promised_followers(&self) -> (followers: Vec<NodeId>)
        ensures
            followers@.no_duplicates(),
            followers@.to_set() == self@.promised().remove(self@.n_leader.pid),
    {
        let es = node_map::entries(&self.promises_meta);
        let ghost promises = self.promises_meta@;
        let leader: NodeId = self.n_leader.pid;
        let mut followers: Vec<NodeId> = Vec::new();
        let mut i: usize = 0;
        while i < es.len()
            invariant
                i <= es@.len(),
                node_map::is_walk(es@, promises),
                followers@.no_duplicates(),
                forall|k: int|
                    0 <= k < followers@.len() ==> promises.contains_key(#[trigger] followers@[k])
                        && promises[followers@[k]] is Promised && followers@[k] != leader && exists|
                        j: int,
                    |
                        0 <= j < i && (#[trigger] es@[j]).0 == followers@[k],
                forall|j: int|
                    0 <= j < i && promises[(#[trigger] es@[j]).0] is Promised && es@[j].0 != leader
                        ==> followers@.contains(es@[j].0),
            decreases es@.len() - i,
        {
            let (pid, state) = es[i];
            let ghost before = followers@;
            if let PromiseState::Promised(_) = state {
                if pid != leader {
                    followers.push(pid);
                    assert(followers@[followers@.len() - 1] == pid);
                }
            }
            assert forall|other: NodeId| before.contains(other) implies followers@.contains(
                other,
            ) by {
                let k = choose|k: int| 0 <= k < before.len() && before[k] == other;
                assert(followers@[k] == other);
            }
            i = i + 1;
        }
        assert(followers@.to_set() =~= self@.promised().remove(leader));
        followers
    }

    /// The pids of peers which have not promised a higher ballot than mine, in the order of
    /// `peers`. A peer that has promised my own ballot is among them.
    pub fn get_preparable_peers(&self, peers: &[NodeId]) -> (preparable: Vec<NodeId>)
        requires
            forall|i: int|
                0 <= i < peers@.len() ==> self@.promises.contains_key(#[trigger] peers@[i]),
        ensures
            preparable@ == self@.preparable(peers@),
    {
        let ghost keep = |pid: NodeId| !(self@.promises[pid] is PromisedHigher);
        let mut preparable: Vec<NodeId> = Vec::new();
        let mut i: usize = 0;
        assert(peers@.take(0).filter(keep) =~= Seq::empty()) by {
            reveal(Seq::filter);
        }
        while i < peers.len()
            invariant
                i <= peers@.len(),
                forall|j: int|
                    0 <= j < peers@.len() ==> self@.promises.contains_key(#[trigger] peers@[j]),
                keep == (|pid: NodeId| !(self@.promises[pid] is PromisedHigher)),
                preparable@ == peers@.take(i as int).filter(keep),
            decreases peers@.len() - i,
        {
            let pid = peers[i];
            assert(peers@.take(i + 1).drop_last() =~= peers@.take(i as int));
            reveal(Seq::filter);
            assert(self@.promises.contains_key(peers@[i as int]));
            match node_map::get(&self.promises_meta, pid) {
                Some(PromiseState::PromisedHigher) => {},
                _ => {
                    preparable.push(pid);
                },
            }
            i = i + 1;
        }
        assert(peers@.take(i as int) =~= peers@);
        preparable
    }

    /// Remembers the outgoing index of the latest accept message to `pid`, with the ballot of this
    /// leader, or that there is none.
    pub fn set_latest_accept_meta(&mut self, pid: NodeId, idx: Option<usize>)
        ensures
            final(self)@ == old(self)@.after_latest_accept(pid, idx),
    {
        let meta = match idx {
            Some(x) => Some((self.n_leader, x)),
            None => None,
        };
        node_map::insert(&mut self.latest_accept_meta, pid, meta);
    }

    /// Sets the accepted index of `pid`.
    pub fn set_accepted_idx(&mut self, pid: NodeId, idx: usize)
        ensures
            final(self)@ == old(self)@.after_accepted(pid, idx),
    {
        node_map::insert(&mut self.accepted_indexes, pid, idx);
    }

    /// The ballot and outgoing index of the latest accept message to `pid`.
    pub fn get_latest_accept_meta(&self, pid: NodeId) -> (meta: Option<(Ballot, usize)>)
        ensures
            meta == self@.latest_accept(pid),
    {
        match node_map::get(&self.latest_accept_meta, pid) {
            Some(meta) => *meta,
            None => None,
        }
    }

    /// The decided index that `pid` promised with, if it has promised.
    pub fn get_decided_idx(&self, pid: NodeId) -> (idx: Option<usize>)
        ensures
            idx == self@.decided_idx(pid),
    {
        match node_map::get(&self.promises_meta, pid) {
            Some(PromiseState::Promised(metadata)) => Some(metadata.decided_idx),
            _ => None,
        }
    }

    /// The accepted index of `pid`, zero for an unknown node.
    pub fn get_accepted_idx(&self, pid: NodeId) -> (idx: usize)
        ensures
            idx == self@.accepted_idx(pid),
    {
        match node_map::get(&self.accepted_indexes, pid) {
            Some(idx) => *idx,
            None => 0,
        }
    }

    /// Whether enough nodes have accepted the log up to `idx`.
    pub fn is_chosen(&self, idx: usize) -> (chosen: bool)
        ensures
            self@.accepted_up_to(idx).finite(),
            chosen == self@.chosen(idx),
    {
        let es = node_map::entries(&self.accepted_indexes);
        let ghost accepted = self.accepted_indexes@;
        let ghost mut seen: Set<NodeId> = Set::empty();
        let mut num_accepted: usize = 0;
        let mut i: usize = 0;
        while i < es.len()
            invariant
                i <= es@.len(),
                node_map::is_walk(es@, accepted),
                seen.finite(),
                seen.len() == num_accepted <= i,
                forall|pid: NodeId| #[trigger]
                    seen.contains(pid) ==> accepted.contains_key(pid) && accepted[pid] >= idx
                        && exists|j: int| 0 <= j < i && (#[trigger] es@[j]).0 == pid,
                forall|j: int|
                    0 <= j < i && accepted[(#[trigger] es@[j]).0] >= idx ==> seen.contains(
                        es@[j].0,
                    ),
            decreases es@.len() - i,
        {
            let (pid, la) = es[i];
            if *la >= idx {
                proof {
                    seen = seen.insert(pid);
                }
                num_accepted = num_accepted + 1;
            }
            i = i + 1;
        }
        assert(seen =~= self@.accepted_up_to(idx));
        self.quorum.is_accept_quorum(num_accepted)
    }
}

} // verus!
