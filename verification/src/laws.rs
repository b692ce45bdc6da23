//! What holds of a leader's state across its operations.
use crate::ballot::Ballot;
use crate::ids::NodeId;
use crate::leader::{promise_meta, LeaderStateView};
use crate::messages::Promise;
use crate::promise::{PromiseMetaData, PromiseState};
use crate::quorum::{law_quorums_intersect, FlexibleQuorum, Quorum};
use crate::sequence::SequenceNumber;
use crate::storage::Entry;
use vstd::prelude::*;
use vstd::set_lib::*;

verus! {

/// To a new leader no node has promised, accepted or been sent anything, and every peer can be
/// prepared.
pub proof fn law_new_leader<T: Entry>(n_leader: Ballot, peers: Seq<NodeId>, quorum: Quorum)
    ensures
        ({
            let s = LeaderStateView::<T>::initial(n_leader, peers, quorum);
            &&& s.preparable(peers) == peers
            &&& s.promised() == Set::<NodeId>::empty()
            &&& s.is_max_decided_idx(0)
            &&& s.max_promise_sync is None
            &&& s.n_leader == n_leader
            &&& s.quorum == quorum
            &&& s.max_promise_meta.n_accepted == (Ballot {
                config_id: 0,
                n: 0,
                priority: 0,
                pid: 0,
            })
            &&& s.max_promise_meta.accepted_idx == 0
            &&& s.max_promise_meta.decided_idx == 0
            &&& s.max_promise_meta.pid == 0
            &&& s.is_finite()
            &&& s.max_promise_is_max()
            &&& forall|pid: NodeId| #[trigger] s.promises.contains_key(pid) <==> peers.contains(pid)
            &&& forall|pid: NodeId| #[trigger] s.seq_nums.contains_key(pid) <==> peers.contains(pid)
            &&& forall|pid: NodeId| #[trigger] s.accepted.contains_key(pid) <==> peers.contains(pid)
            &&& forall|pid: NodeId| #[trigger]
                s.latest_accepts.contains_key(pid) <==> peers.contains(pid)
            &&& forall|pid: NodeId|
                peers.contains(pid) ==> (#[trigger] s.promises[pid]) is NotPromised
            &&& forall|pid: NodeId|
                (#[trigger] s.seq_num(pid)).session == 0 && s.seq_num(pid).counter == 0
            &&& forall|pid: NodeId| #[trigger] s.seq_num(pid) == SequenceNumber::zero()
            &&& forall|pid: NodeId| #[trigger] s.accepted_idx(pid) == 0
            &&& forall|pid: NodeId| #[trigger] s.latest_accept(pid) is None
        }),
{
    let s = LeaderStateView::<T>::initial(n_leader, peers, quorum);
    assert forall|i: int| 0 <= i < peers.len() implies !(s.promises[
        #[trigger] peers[i]
    ] is PromisedHigher) by {
        assert(peers.contains(peers[i]));
    }
    lemma_filter_keeps_all(peers, |pid: NodeId| !(s.promises[pid] is PromisedHigher));
    assert(s.promised() =~= Set::<NodeId>::empty());
    vstd::seq_lib::seq_to_set_is_finite(peers);
    assert(s.promises.dom() =~= peers.to_set());
    assert(s.seq_nums.dom() =~= peers.to_set());
    assert(s.accepted.dom() =~= peers.to_set());
    assert(s.latest_accepts.dom() =~= peers.to_set());
}

proof fn lemma_filter_keeps_all(s: Seq<NodeId>, keep: spec_fn(NodeId) -> bool)
    requires
        forall|i: int| 0 <= i < s.len() ==> keep(#[trigger] s[i]),
    ensures
        s.filter(keep) == s,
    decreases s.len(),
{
    reveal(Seq::filter);
    if s.len() > 0 {
        lemma_filter_keeps_all(s.drop_last(), keep);
        assert(s =~= s.drop_last().push(s.last()));
    }
}

/// Every operation keeps the leader's ballot and quorum, forgets no node, and keeps the state
/// finite.
pub proof fn law_operations_keep_ballot_quorum_and_nodes<T: Entry>(
    s: LeaderStateView<T>,
    next: LeaderStateView<T>,
)
    requires
        s.leads_to(next),
    ensures
        next.n_leader == s.n_leader,
        next.quorum == s.quorum,
        s.promises.dom().subset_of(next.promises.dom()),
        s.seq_nums.dom().subset_of(next.seq_nums.dom()),
        s.accepted.dom().subset_of(next.accepted.dom()),
        s.latest_accepts.dom().subset_of(next.latest_accepts.dom()),
        s.is_finite() ==> next.is_finite(),
{
    assert(s.after_latest_accepts_reset().latest_accepts.dom() =~= s.latest_accepts.dom());
}

/// No operation takes the sequence number of a follower back.
pub proof fn law_sequence_numbers_never_go_back<T: Entry>(
    s: LeaderStateView<T>,
    next: LeaderStateView<T>,
    pid: NodeId,
)
    requires
        s.leads_to(next),
    ensures
        next.seq_num(pid) == s.seq_num(pid) || s.seq_num(pid).before(next.seq_num(pid)),
{
}

/// No operation makes the most up-to-date promise less up-to-date. Where it changes, it becomes the
/// promise just recorded; where it does not, its log update stays until it is taken.
pub proof fn law_max_promise_never_goes_back<T: Entry>(
    s: LeaderStateView<T>,
    next: LeaderStateView<T>,
)
    requires
        s.leads_to(next),
    ensures
        !s.max_promise_meta.exceeds(next.max_promise_meta),
        next.max_promise_meta != s.max_promise_meta ==> {
            let from = next.max_promise_meta.pid;
            next.has_promised(from) && next.promises[from]->Promised_0 == next.max_promise_meta
        },
        next.max_promise_meta == s.max_promise_meta ==> next.max_promise_sync == s.max_promise_sync
            || next == s.after_sync_taken(),
{
}

/// As long as every promise is checked, no recorded promise exceeds the remembered one: each
/// operation keeps it so, but for recording an unchecked promise that exceeds it.
pub proof fn law_max_promise_stays_max<T: Entry>(
    s: LeaderStateView<T>,
    prom: Promise<T>,
    pid: NodeId,
    idx: usize,
    latest: Option<usize>,
)
    requires
        s.max_promise_is_max(),
    ensures
        s.after_promise(prom, pid, true).max_promise_is_max(),
        s.after_promise(prom, pid, false).max_promise_is_max() <==> !promise_meta(
            prom,
            pid,
        ).exceeds(s.max_promise_meta),
        s.after_promise_state(pid, PromiseState::NotPromised).max_promise_is_max(),
        s.after_promise_state(pid, PromiseState::PromisedHigher).max_promise_is_max(),
        s.after_new_session(pid).max_promise_is_max(),
        s.after_next_message(pid).max_promise_is_max(),
        s.after_accepted(pid, idx).max_promise_is_max(),
        s.after_latest_accept(pid, latest).max_promise_is_max(),
        s.after_latest_accepts_reset().max_promise_is_max(),
        s.after_sync_taken().max_promise_is_max(),
{
    let meta = promise_meta(prom, pid);
    let unchecked = s.after_promise(prom, pid, false);
    assert(unchecked.has_promised(pid) && unchecked.promises[pid] == PromiseState::Promised(meta));
    let checked = s.after_promise(prom, pid, true);
    assert forall|other: NodeId| #[trigger]
        checked.has_promised(other) implies !checked.promises[other]->Promised_0.exceeds(
        checked.max_promise_meta,
    ) by {
        if other != pid {
            assert(s.has_promised(other));
        }
    }
    assert(forall|other: NodeId| #[trigger] unchecked.has_promised(other) && other != pid ==> s.has_promised(other));
    let reset = s.after_promise_state(pid, PromiseState::NotPromised);
    assert(forall|other: NodeId| #[trigger] reset.has_promised(other) ==> s.has_promised(other));
    let lost = s.after_promise_state(pid, PromiseState::PromisedHigher);
    assert(forall|other: NodeId| #[trigger] lost.has_promised(other) ==> s.has_promised(other));
    assert(forall|other: NodeId| #[trigger]
        s.after_new_session(pid).has_promised(other) ==> s.has_promised(other));
    assert(forall|other: NodeId| #[trigger]
        s.after_next_message(pid).has_promised(other) ==> s.has_promised(other));
    assert(forall|other: NodeId| #[trigger]
        s.after_accepted(pid, idx).has_promised(other) ==> s.has_promised(other));
    assert(forall|other: NodeId| #[trigger]
        s.after_latest_accept(pid, latest).has_promised(other) ==> s.has_promised(other));
    assert(forall|other: NodeId| #[trigger]
        s.after_latest_accepts_reset().has_promised(other) ==> s.has_promised(other));
    assert(forall|other: NodeId| #[trigger]
        s.after_sync_taken().has_promised(other) ==> s.has_promised(other));
}

/// A recorded promise is read back: the node has promised, with the decided index it gave, which
/// the highest decided index is not below; nothing changes for the other nodes. Recording a promise
/// takes no quorum away.
pub proof fn law_promise_is_read_back<T: Entry>(
    s: LeaderStateView<T>,
    prom: Promise<T>,
    from: NodeId,
    check_max_prom: bool,
    other: NodeId,
    max: usize,
)
    ensures
        ({
            let next = s.after_promise(prom, from, check_max_prom);
            &&& next.promises[from] == PromiseState::Promised(promise_meta(prom, from))
            &&& next.decided_idx(from) == Some(prom.decided_idx)
            &&& next.promised() == s.promised().insert(from)
            &&& other != from ==> next.decided_idx(other) == s.decided_idx(other)
            &&& next.is_max_decided_idx(max) ==> max >= prom.decided_idx
            &&& s.promised().finite() && s.is_prepared() ==> next.is_prepared()
        }),
{
    let next = s.after_promise(prom, from, check_max_prom);
    assert(next.has_promised(from));
    assert(next.promised() =~= s.promised().insert(from));
}

/// A promise that is reset or lost is gone: the node has promised nothing to this leader any more.
/// It can be prepared again after a reset, and not after it was seen with a higher ballot.
pub proof fn law_promise_is_withdrawn<T: Entry>(s: LeaderStateView<T>, pid: NodeId, peers: Seq<NodeId>)
    ensures
        ({
            let reset = s.after_promise_state(pid, PromiseState::NotPromised);
            let lost = s.after_promise_state(pid, PromiseState::PromisedHigher);
            &&& reset.promised() == s.promised().remove(pid)
            &&& lost.promised() == s.promised().remove(pid)
            &&& reset.decided_idx(pid) is None
            &&& lost.decided_idx(pid) is None
            &&& peers.contains(pid) ==> reset.preparable(peers).contains(pid)
            &&& !lost.preparable(peers).contains(pid)
        }),
{
    let reset = s.after_promise_state(pid, PromiseState::NotPromised);
    let lost = s.after_promise_state(pid, PromiseState::PromisedHigher);
    assert(reset.promised() =~= s.promised().remove(pid));
    assert(lost.promised() =~= s.promised().remove(pid));
    law_preparable_peers(reset, peers, pid);
    law_preparable_peers(lost, peers, pid);
}

/// A peer can be prepared if and only if it has not promised a higher ballot.
pub proof fn law_preparable_peers<T: Entry>(s: LeaderStateView<T>, peers: Seq<NodeId>, pid: NodeId)
    ensures
        s.preparable(peers).contains(pid) <==> peers.contains(pid) && !(
        s.promises[pid] is PromisedHigher),
{
    lemma_filter_contains(peers, |pid: NodeId| !(s.promises[pid] is PromisedHigher), pid);
}

proof fn lemma_filter_contains(s: Seq<NodeId>, keep: spec_fn(NodeId) -> bool, pid: NodeId)
    ensures
        s.filter(keep).contains(pid) <==> s.contains(pid) && keep(pid),
    decreases s.len(),
{
    reveal(Seq::filter);
    if s.len() > 0 {
        let rest = s.drop_last();
        lemma_filter_contains(rest, keep, pid);
        assert(s =~= rest.push(s.last()));
        broadcast use vstd::seq_lib::group_seq_properties;

    }
}

/// There is only one highest decided index.
pub proof fn law_max_decided_idx_is_unique<T: Entry>(s: LeaderStateView<T>, a: usize, b: usize)
    requires
        s.is_max_decided_idx(a),
        s.is_max_decided_idx(b),
    ensures
        a == b,
{
}

/// What is chosen up to an index is chosen up to every lower one.
pub proof fn law_chosen_is_downward_closed<T: Entry>(
    s: LeaderStateView<T>,
    lower: usize,
    idx: usize,
)
    requires
        s.accepted_up_to(lower).finite(),
        lower <= idx,
        s.chosen(idx),
    ensures
        s.chosen(lower),
{
    lemma_len_subset(s.accepted_up_to(idx), s.accepted_up_to(lower));
}

/// A set accepted index is read back, and the other nodes keep theirs. What is chosen stays chosen
/// as long as no accepted index is lowered.
pub proof fn law_accepted_idx_is_read_back<T: Entry>(
    s: LeaderStateView<T>,
    pid: NodeId,
    idx: usize,
    other: NodeId,
    chosen_idx: usize,
)
    ensures
        s.after_accepted(pid, idx).accepted_idx(pid) == idx,
        other != pid ==> s.after_accepted(pid, idx).accepted_idx(other) == s.accepted_idx(other),
        s.accepted_up_to(chosen_idx).finite() && idx >= s.accepted_idx(pid) && s.chosen(chosen_idx)
            ==> s.after_accepted(pid, idx).chosen(chosen_idx),
{
    let next = s.after_accepted(pid, idx);
    let before = s.accepted_up_to(chosen_idx);
    if before.finite() && idx >= s.accepted_idx(pid) {
        assert(next.accepted_up_to(chosen_idx).subset_of(before.insert(pid)));
        lemma_len_subset(next.accepted_up_to(chosen_idx), before.insert(pid));
        lemma_len_subset(before, next.accepted_up_to(chosen_idx));
    }
}

/// Whoever prepares hears of what was chosen: where the quorum sizes together exceed the number of
/// nodes, some node that has promised to a prepared leader has accepted the log up to any index that
/// another leader sees as chosen.
pub proof fn law_prepared_leader_meets_chosen_index<T: Entry>(
    preparing: LeaderStateView<T>,
    deciding: LeaderStateView<T>,
    nodes: Set<NodeId>,
    idx: usize,
)
    requires
        nodes.finite(),
        preparing.promises.dom().subset_of(nodes),
        deciding.accepted.dom().subset_of(nodes),
        preparing.quorum == deciding.quorum,
        preparing.quorum.prepare_size() + preparing.quorum.accept_size() > nodes.len(),
        preparing.is_prepared(),
        deciding.chosen(idx),
    ensures
        exists|pid: NodeId| #[trigger]
            preparing.has_promised(pid) && deciding.accepted.contains_key(pid)
                && deciding.accepted_idx(pid) >= idx,
{
    law_quorums_intersect(
        preparing.quorum,
        nodes,
        preparing.promised(),
        deciding.accepted_up_to(idx),
    );
    let pid = choose|pid: NodeId|
        preparing.promised().contains(pid) && deciding.accepted_up_to(idx).contains(pid);
    assert(preparing.has_promised(pid));
}

/// The messages to a follower are numbered one by one: a follower that stands at the number of the
/// last message expects the next one, and finds any repetition outdated. The other followers'
/// numbers stay as they are.
pub proof fn law_next_message_is_expected<T: Entry>(s: LeaderStateView<T>, pid: NodeId, other: NodeId)
    requires
        s.seq_num(pid).counter < u64::MAX,
    ensures
        ({
            let next = s.after_next_message(pid);
            &&& s.seq_num(pid).status_of(next.seq_num(pid)) is Expected
            &&& next.seq_num(pid).status_of(next.seq_num(pid)) is Outdated
            &&& next.seq_num(pid).status_of(s.seq_num(pid)) is Outdated
            &&& other != pid ==> next.seq_num(other) == s.seq_num(other)
        }),
{
}

/// The first message of a session to a known follower has sequence number 1, and it shows a break
/// to a follower that has not learnt of the session, whatever came before.
pub proof fn law_first_message_of_session<T: Entry>(s: LeaderStateView<T>, pid: NodeId, other: NodeId)
    requires
        s.seq_nums.contains_key(pid),
        s.seq_num(pid).session < u64::MAX,
    ensures
        ({
            let first = s.after_new_session(pid).after_next_message(pid);
            &&& first.seq_num(pid).counter == 1
            &&& first.seq_num(pid).session == s.seq_num(pid).session + 1
            &&& s.seq_num(pid).status_of(first.seq_num(pid)) is DroppedPreceding
            &&& other != pid ==> first.seq_num(other) == s.seq_num(other)
        }),
{
}

/// A remembered accept message is read back with the leader's ballot, the other followers keep
/// theirs, and after a reset there is none for any follower.
pub proof fn law_latest_accept_is_read_back<T: Entry>(
    s: LeaderStateView<T>,
    pid: NodeId,
    idx: Option<usize>,
    other: NodeId,
)
    ensures
        idx matches Some(x) ==> s.after_latest_accept(pid, idx).latest_accept(pid) == Some(
            (s.n_leader, x),
        ),
        idx is None ==> s.after_latest_accept(pid, idx).latest_accept(pid) is None,
        other != pid ==> s.after_latest_accept(pid, idx).latest_accept(other) == s.latest_accept(
            other,
        ),
        s.after_latest_accepts_reset().latest_accept(pid) is None,
{
}

/// What is read of a node is what was recorded for it, and nothing for a node of which nothing was.
pub proof fn law_reads_give_what_is_recorded<T: Entry>(
    s: LeaderStateView<T>,
    pid: NodeId,
    idx: usize,
    meta: PromiseMetaData,
)
    ensures
        s.promises.contains_key(pid) && s.promises[pid] == PromiseState::Promised(meta)
            ==> s.has_promised(pid) && s.promised().contains(pid) && s.decided_idx(pid) == Some(
            meta.decided_idx,
        ),
        !s.promises.contains_key(pid) || s.promises[pid] is NotPromised
            || s.promises[pid] is PromisedHigher ==> !s.has_promised(pid)
            && !s.promised().contains(pid) && s.decided_idx(pid) is None,
        s.accepted.contains_key(pid) ==> s.accepted_idx(pid) == s.accepted[pid],
        !s.accepted.contains_key(pid) ==> s.accepted_idx(pid) == 0,
        s.accepted_up_to(idx).contains(pid) ==> s.accepted.contains_key(pid) && s.accepted_idx(pid)
            >= idx,
        s.accepted.contains_key(pid) && s.accepted[pid] >= idx ==> s.accepted_up_to(idx).contains(
            pid,
        ),
        s.latest_accepts.contains_key(pid) ==> s.latest_accept(pid) == s.latest_accepts[pid],
        !s.latest_accepts.contains_key(pid) ==> s.latest_accept(pid) is None,
        s.seq_nums.contains_key(pid) ==> s.seq_num(pid) == s.seq_nums[pid],
        !s.seq_nums.contains_key(pid) ==> s.seq_num(pid).session == 0 && s.seq_num(pid).counter
            == 0,
{
}

/// No operation changes what it is not about: each touches one part of the state, and of that part
/// the entry of one node at most, except for the reset, which drops every latest accept message.
pub proof fn law_operations_leave_the_rest_alone<T: Entry>(
    s: LeaderStateView<T>,
    prom: Promise<T>,
    check_max_prom: bool,
    pid: NodeId,
    state: PromiseState,
    idx: usize,
    latest: Option<usize>,
)
    ensures
        ({
            let next = s.after_new_session(pid);
            &&& next == (LeaderStateView { seq_nums: next.seq_nums, ..s })
            &&& s.seq_nums.contains_key(pid) ==> next.seq_nums == s.seq_nums.insert(
                pid,
                next.seq_nums[pid],
            )
            &&& !s.seq_nums.contains_key(pid) ==> next == s
        }),
        ({
            let next = s.after_next_message(pid);
            &&& next == (LeaderStateView { seq_nums: next.seq_nums, ..s })
            &&& next.seq_nums == s.seq_nums.insert(pid, next.seq_nums[pid])
        }),
        ({
            let next = s.after_promise_state(pid, state);
            &&& next == (LeaderStateView { promises: next.promises, ..s })
            &&& next.promises == s.promises.insert(pid, next.promises[pid])
            &&& next.promises[pid] == state
        }),
        ({
            let next = s.after_promise(prom, pid, check_max_prom);
            &&& next == (LeaderStateView {
                promises: next.promises,
                max_promise_meta: next.max_promise_meta,
                max_promise_sync: next.max_promise_sync,
                ..s
            })
            &&& next.promises == s.promises.insert(pid, next.promises[pid])
        }),
        ({
            let next = s.after_accepted(pid, idx);
            &&& next == (LeaderStateView { accepted: next.accepted, ..s })
            &&& next.accepted == s.accepted.insert(pid, next.accepted[pid])
            &&& next.accepted[pid] == idx
        }),
        ({
            let next = s.after_latest_accept(pid, latest);
            &&& next == (LeaderStateView { latest_accepts: next.latest_accepts, ..s })
            &&& next.latest_accepts == s.latest_accepts.insert(pid, next.latest_accepts[pid])
        }),
        ({
            let next = s.after_latest_accepts_reset();
            &&& next == (LeaderStateView { latest_accepts: next.latest_accepts, ..s })
            &&& next.latest_accepts.dom() == s.latest_accepts.dom()
            &&& next.latest_accepts.contains_key(pid) ==> next.latest_accepts[pid] is None
        }),
        ({
            let next = s.after_sync_taken();
            &&& next.max_promise_sync is None
            &&& s == (LeaderStateView { max_promise_sync: s.max_promise_sync, ..next })
        }),
{
    assert(s.after_latest_accepts_reset().latest_accepts.dom() =~= s.latest_accepts.dom());
}

/// Each of the operations is a step from the state it is done in.
pub proof fn law_operations_are_steps<T: Entry>(
    s: LeaderStateView<T>,
    prom: Promise<T>,
    check_max_prom: bool,
    pid: NodeId,
    idx: usize,
    latest: Option<usize>,
)
    ensures
        s.seq_num(pid).session < u64::MAX ==> s.leads_to(s.after_new_session(pid)),
        s.seq_num(pid).counter < u64::MAX ==> s.leads_to(s.after_next_message(pid)),
        s.leads_to(s.after_promise_state(pid, PromiseState::NotPromised)),
        s.leads_to(s.after_promise_state(pid, PromiseState::PromisedHigher)),
        s.leads_to(s.after_promise(prom, pid, check_max_prom)),
        s.leads_to(s.after_accepted(pid, idx)),
        s.leads_to(s.after_latest_accept(pid, latest)),
        s.leads_to(s.after_latest_accepts_reset()),
        s.leads_to(s.after_sync_taken()),
{
}

/// A recorded promise carries what the message says, under the node that it came from.
pub proof fn law_promise_carries_the_message<T: Entry>(
    s: LeaderStateView<T>,
    prom: Promise<T>,
    from: NodeId,
    check_max_prom: bool,
)
    ensures
        ({
            let next = s.after_promise(prom, from, check_max_prom);
            &&& next.promises.contains_key(from)
            &&& next.promises[from] matches PromiseState::Promised(meta) && meta.n_accepted
                == prom.n_accepted && meta.accepted_idx == prom.accepted_idx && meta.decided_idx
                == prom.decided_idx && meta.pid == from && meta == promise_meta(prom, from)
        }),
{
}

/// The most up-to-date promise after a checked one is whichever of the two is not exceeded by the
/// other, the earlier one where neither is; its log update is the one that it came with. An
/// unchecked promise changes neither.
pub proof fn law_log_update_comes_with_max_promise<T: Entry>(
    s: LeaderStateView<T>,
    prom: Promise<T>,
    from: NodeId,
    check_max_prom: bool,
    meta: PromiseMetaData,
)
    requires
        meta.n_accepted == prom.n_accepted,
        meta.accepted_idx == prom.accepted_idx,
        meta.decided_idx == prom.decided_idx,
        meta.pid == from,
    ensures
        ({
            let next = s.after_promise(prom, from, check_max_prom);
            &&& next.max_promise_meta == s.max_promise_meta || next.max_promise_meta == meta
            &&& !s.max_promise_meta.exceeds(next.max_promise_meta)
            &&& check_max_prom ==> !meta.exceeds(next.max_promise_meta)
            &&& next.max_promise_meta != s.max_promise_meta ==> next.max_promise_sync
                == prom.log_sync
            &&& next.max_promise_meta == s.max_promise_meta ==> next.max_promise_sync
                == s.max_promise_sync
            &&& !check_max_prom || !meta.exceeds(s.max_promise_meta) ==> next.max_promise_meta
                == s.max_promise_meta
        }),
{
}

/// Of two checked promises for different logs the more up-to-date one is remembered with its log
/// update, whichever of them comes first.
pub proof fn law_max_promise_does_not_depend_on_order<T: Entry>(
    s: LeaderStateView<T>,
    better: Promise<T>,
    worse: Promise<T>,
    b: NodeId,
    w: NodeId,
)
    requires
        worse.n_accepted.before(better.n_accepted) || (worse.n_accepted == better.n_accepted
            && worse.accepted_idx < better.accepted_idx),
        s.max_promise_meta.n_accepted.before(better.n_accepted) || (s.max_promise_meta.n_accepted
            == better.n_accepted && s.max_promise_meta.accepted_idx < better.accepted_idx),
    ensures
        ({
            let one = s.after_promise(better, b, true).after_promise(worse, w, true);
            let two = s.after_promise(worse, w, true).after_promise(better, b, true);
            &&& one.max_promise_meta == two.max_promise_meta
            &&& one.max_promise_meta.pid == b
            &&& one.max_promise_meta.n_accepted == better.n_accepted
            &&& one.max_promise_meta.accepted_idx == better.accepted_idx
            &&& one.max_promise_sync == better.log_sync
            &&& two.max_promise_sync == better.log_sync
        }),
{
}

/// As many promises as the quorum asks for are enough, whoever gave them and whatever the other nodes
/// did; fewer are not.
pub proof fn law_enough_promises_are_a_quorum<T: Entry>(
    s: LeaderStateView<T>,
    group: Set<NodeId>,
    majority: usize,
    f: FlexibleQuorum,
    needed: nat,
)
    requires
        s.promised().finite(),
        s.quorum == Quorum::Majority(majority) && needed == majority || s.quorum
            == Quorum::Flexible(f) && needed == f.read_quorum_size,
    ensures
        group.len() >= needed && (forall|pid: NodeId| #[trigger]
            group.contains(pid) ==> s.promises.contains_key(pid) && s.promises[pid] is Promised)
            ==> s.is_prepared(),
        group.finite() && group.len() < needed && (forall|pid: NodeId| #[trigger]
            s.promises.contains_key(pid) && s.promises[pid] is Promised ==> group.contains(pid))
            ==> !s.is_prepared(),
{
    if forall|pid: NodeId| #[trigger]
        group.contains(pid) ==> s.promises.contains_key(pid) && s.promises[pid] is Promised {
        lemma_len_subset(group, s.promised());
    }
    if group.finite() && forall|pid: NodeId| #[trigger]
        s.promises.contains_key(pid) && s.promises[pid] is Promised ==> group.contains(pid) {
        assert(s.promised().subset_of(group)) by {
            assert forall|pid: NodeId| s.promised().contains(pid) implies group.contains(pid) by {
                assert(s.promises.contains_key(pid));
            }
        }
        lemma_len_subset(s.promised(), group);
    }
}

/// Whether enough nodes have promised does not change with a node that had not promised and does not
/// now.
pub proof fn law_lost_node_outside_quorum_changes_nothing<T: Entry>(
    s: LeaderStateView<T>,
    pid: NodeId,
    state: PromiseState,
)
    requires
        s.promises.contains_key(pid) ==> !(s.promises[pid] is Promised),
        !(state is Promised),
    ensures
        s.after_promise_state(pid, state).is_prepared() == s.is_prepared(),
{
    assert(s.after_promise_state(pid, state).promised() =~= s.promised());
}

/// An index is chosen as soon as as many nodes as the quorum asks for have accepted the log up to it,
/// whichever nodes they are; with fewer it is not.
pub proof fn law_enough_acceptors_choose<T: Entry>(
    s: LeaderStateView<T>,
    group: Set<NodeId>,
    idx: usize,
    majority: usize,
    f: FlexibleQuorum,
    needed: nat,
)
    requires
        s.accepted_up_to(idx).finite(),
        s.quorum == Quorum::Majority(majority) && needed == majority || s.quorum
            == Quorum::Flexible(f) && needed == f.write_quorum_size,
    ensures
        group.len() >= needed && (forall|pid: NodeId| #[trigger]
            group.contains(pid) ==> s.accepted.contains_key(pid) && s.accepted[pid] >= idx)
            ==> s.chosen(idx),
        group.finite() && group.len() < needed && (forall|pid: NodeId| #[trigger]
            s.accepted.contains_key(pid) && s.accepted[pid] >= idx ==> group.contains(pid))
            ==> !s.chosen(idx),
{
    if forall|pid: NodeId| #[trigger]
        group.contains(pid) ==> s.accepted.contains_key(pid) && s.accepted[pid] >= idx {
        lemma_len_subset(group, s.accepted_up_to(idx));
    }
    if group.finite() && forall|pid: NodeId| #[trigger]
        s.accepted.contains_key(pid) && s.accepted[pid] >= idx ==> group.contains(pid) {
        assert(s.accepted_up_to(idx).subset_of(group)) by {
            assert forall|pid: NodeId| s.accepted_up_to(idx).contains(pid) implies group.contains(
                pid,
            ) by {
                assert(s.accepted.contains_key(pid));
            }
        }
        lemma_len_subset(s.accepted_up_to(idx), group);
    }
}

/// The highest decided index is not below that of any promise, and it is that of some promise, or zero
/// where nobody has promised.
pub proof fn law_max_decided_idx_bounds_promises<T: Entry>(
    s: LeaderStateView<T>,
    max: usize,
    pid: NodeId,
    meta: PromiseMetaData,
)
    requires
        s.is_max_decided_idx(max),
    ensures
        s.promises.contains_key(pid) && s.promises[pid] == PromiseState::Promised(meta)
            ==> meta.decided_idx <= max,
        max > 0 ==> exists|p: NodeId| #[trigger]
            s.promises.contains_key(p) && (s.promises[p] matches PromiseState::Promised(m)
                && m.decided_idx == max),
        (forall|p: NodeId| #[trigger]
            s.promises.contains_key(p) ==> !(s.promises[p] is Promised)) ==> max == 0,
{
    if s.promises.contains_key(pid) && s.promises[pid] == PromiseState::Promised(meta) {
        assert(s.has_promised(pid));
    }
    if max > 0 {
        let p = choose|p: NodeId| #[trigger]
            s.has_promised(p) && s.decided_idx(p) == Some(max);
        assert(s.promises.contains_key(p));
    }
}

/// Each peer is judged by itself and kept in its place: what can be prepared of two groups of peers is
/// what can be prepared of the first, then of the second.
pub proof fn law_preparable_peers_are_judged_one_by_one<T: Entry>(
    s: LeaderStateView<T>,
    first: Seq<NodeId>,
    second: Seq<NodeId>,
    pid: NodeId,
)
    ensures
        s.preparable(first + second) == s.preparable(first) + s.preparable(second),
        s.promises[pid] is PromisedHigher ==> s.preparable(seq![pid]) == Seq::<NodeId>::empty(),
        s.promises[pid] is NotPromised || s.promises[pid] is Promised ==> s.preparable(seq![pid])
            == seq![pid],
{
    let keep = |p: NodeId| !(s.promises[p] is PromisedHigher);
    Seq::filter_distributes_over_add(first, second, keep);
    reveal(Seq::filter);
    assert(seq![pid].drop_last() =~= Seq::<NodeId>::empty());
    assert(Seq::<NodeId>::empty().filter(keep) =~= Seq::<NodeId>::empty());
    assert(Seq::<NodeId>::empty().push(pid) =~= seq![pid]);
}

/// A new session counts one up and starts over at zero; messages count one up within the session, from
/// zero for a follower that was sent none.
pub proof fn law_session_and_counter_steps<T: Entry>(s: LeaderStateView<T>, pid: NodeId)
    ensures
        s.seq_nums.contains_key(pid) && s.seq_nums[pid].session < u64::MAX ==> ({
            let next = s.after_new_session(pid).seq_nums[pid];
            next.session - s.seq_nums[pid].session == 1 && next.counter == 0
        }),
        s.seq_nums.contains_key(pid) && s.seq_nums[pid].counter < u64::MAX ==> ({
            let next = s.after_next_message(pid).seq_nums[pid];
            next.session == s.seq_nums[pid].session && next.counter - s.seq_nums[pid].counter == 1
        }),
        !s.seq_nums.contains_key(pid) ==> ({
            let next = s.after_next_message(pid).seq_nums[pid];
            next.session == 0 && next.counter == 1
        }),
{
}

/// A remembered accept message carries the ballot of the leader and the given index.
pub proof fn law_latest_accept_carries_ballot_and_index<T: Entry>(
    s: LeaderStateView<T>,
    pid: NodeId,
    idx: usize,
)
    ensures
        s.after_latest_accept(pid, Some(idx)).latest_accepts[pid] == Some((s.n_leader, idx)),
        s.after_latest_accept(pid, None).latest_accepts[pid] is None,
{
}

/// Where the remembered promise is the most up-to-date one, no recorded promise has a later round, nor
/// a longer log of the same round.
pub proof fn law_max_promise_bounds_promises<T: Entry>(
    s: LeaderStateView<T>,
    pid: NodeId,
    meta: PromiseMetaData,
)
    requires
        s.max_promise_is_max(),
        s.promises.contains_key(pid),
        s.promises[pid] == PromiseState::Promised(meta),
    ensures
        !s.max_promise_meta.n_accepted.before(meta.n_accepted),
        meta.n_accepted == s.max_promise_meta.n_accepted ==> meta.accepted_idx
            <= s.max_promise_meta.accepted_idx,
{
    assert(s.has_promised(pid));
}

/// A finite state records something of finitely many nodes only.
pub proof fn law_finite_state_has_finite_parts<T: Entry>(s: LeaderStateView<T>)
    requires
        s.is_finite(),
    ensures
        s.promises.dom().finite(),
        s.seq_nums.dom().finite(),
        s.accepted.dom().finite(),
        s.latest_accepts.dom().finite(),
{
}

} // verus!
