//! What a leader remembers of the promises it was given.
use crate::ballot::Ballot;
use crate::ids::NodeId;
use std::cmp::Ordering;
use vstd::prelude::*;

verus! {

/// A promise without the log update.
#[derive(Clone, Copy, Debug)]
pub struct PromiseMetaData {
    /// The latest round in which the node accepted an entry.
    pub n_accepted: Ballot,
    /// The accepted index of the node.
    pub accepted_idx: usize,
    /// The decided index of the node.
    pub decided_idx: usize,
    /// The node that promised.
    pub pid: NodeId,
}

/// The promise state of a node.
#[derive(Clone, Copy, Debug)]
pub enum PromiseState {
    /// Not promised to any leader.
    NotPromised,
    /// Promised to my ballot.
    Promised(PromiseMetaData),
    /// Promised to a leader who's ballot is greater than mine.
    PromisedHigher,
}

impl PromiseMetaData {
    /// The promise of a node that has accepted nothing: no promise is less up-to-date.
    pub open spec fn least() -> Self {
        PromiseMetaData {
            n_accepted: Ballot { config_id: 0, n: 0, priority: 0, pid: 0 },
            accepted_idx: 0,
            decided_idx: 0,
            pid: 0,
        }
    }

    /// Whether the log behind this promise is more up-to-date than the one behind `other`: accepted
    /// in a later round, or in the same round and longer.
    pub open spec fn exceeds(self, other: Self) -> bool {
        ||| other.n_accepted.before(self.n_accepted)
        ||| self.n_accepted == other.n_accepted && self.accepted_idx > other.accepted_idx
    }

    /// Whether both are promises of the same node for the same accepted log.
    pub open spec fn same_as(self, other: Self) -> bool {
        &&& self.n_accepted == other.n_accepted
        &&& self.accepted_idx == other.accepted_idx
        &&& self.pid == other.pid
    }
}

impl Default for PromiseMetaData {
    fn default() -> (p: Self)
        ensures
            p == PromiseMetaData::least(),
            p.n_accepted == (Ballot { config_id: 0, n: 0, priority: 0, pid: 0 }),
            p.accepted_idx == 0,
            p.decided_idx == 0,
            p.pid == 0,
    {
        PromiseMetaData {
            n_accepted: Ballot::default(),
            accepted_idx: 0,
            decided_idx: 0,
            pid: 0,
        }
    }
}

impl PartialOrd for PromiseMetaData {
    fn partial_cmp(&self, other: &Self) -> (r: Option<Ordering>)
        ensures
            other.n_accepted.before(self.n_accepted) ==> r == Some(Ordering::Greater),
            self.n_accepted.before(other.n_accepted) ==> r == Some(Ordering::Less),
            self.n_accepted == other.n_accepted && self.accepted_idx > other.accepted_idx ==> r
                == Some(Ordering::Greater),
            self.n_accepted == other.n_accepted && self.accepted_idx < other.accepted_idx ==> r
                == Some(Ordering::Less),
            self.n_accepted == other.n_accepted && self.accepted_idx == other.accepted_idx
                && self.pid == other.pid ==> r == Some(Ordering::Equal),
            self.n_accepted == other.n_accepted && self.accepted_idx == other.accepted_idx
                && self.pid != other.pid ==> r == Some(Ordering::Less),
    {
        let ordering = if self.n_accepted == other.n_accepted && self.accepted_idx
            == other.accepted_idx && self.pid == other.pid {
            Ordering::Equal
        } else if self.n_accepted > other.n_accepted || (self.n_accepted == other.n_accepted
            && self.accepted_idx > other.accepted_idx) {
            Ordering::Greater
        } else {
            Ordering::Less
        };
        Some(ordering)
    }
}

impl vstd::std_specs::cmp::PartialOrdSpecImpl for PromiseMetaData {
    open spec fn obeys_partial_cmp_spec() -> bool {
        true
    }

    open spec fn partial_cmp_spec(&self, other: &Self) -> Option<Ordering> {
        if self.same_as(*other) {
            Some(Ordering::Equal)
        } else if self.exceeds(*other) {
            Some(Ordering::Greater)
        } else {
            Some(Ordering::Less)
        }
    }
}

impl PartialEq for PromiseMetaData {
    fn eq(&self, other: &Self) -> (r: bool)
        ensures
            r == (self.n_accepted == other.n_accepted && self.accepted_idx == other.accepted_idx
                && self.pid == other.pid),
    {
        self.n_accepted == other.n_accepted && self.accepted_idx == other.accepted_idx && self.pid
            == other.pid
    }
}

impl vstd::std_specs::cmp::PartialEqSpecImpl for PromiseMetaData {
    open spec fn obeys_eq_spec() -> bool {
        true
    }

    open spec fn eq_spec(&self, other: &Self) -> bool {
        self.same_as(*other)
    }
}

/// Being the same promise is an equivalence, and promises that are the same rank equally against
/// every other.
pub proof fn law_same_promise_is_an_equivalence(
    a: PromiseMetaData,
    b: PromiseMetaData,
    c: PromiseMetaData,
)
    ensures
        a.same_as(a),
        a.same_as(b) ==> b.same_as(a),
        a.same_as(b) && b.same_as(c) ==> a.same_as(c),
        a.same_as(b) ==> !a.exceeds(b) && (a.exceeds(c) <==> b.exceeds(c)) && (c.exceeds(a)
            <==> c.exceeds(b)),
{
}

/// Promises are ranked by how up-to-date their logs are: `exceeds` is irreflexive, asymmetric and
/// transitive, and a promise that exceeds another exceeds whatever the other is not exceeded by.
pub proof fn law_promises_are_ranked(a: PromiseMetaData, b: PromiseMetaData, c: PromiseMetaData)
    ensures
        !a.exceeds(a),
        a.exceeds(b) ==> !b.exceeds(a),
        a.exceeds(b) && b.exceeds(c) ==> a.exceeds(c),
        a.exceeds(b) && !c.exceeds(b) ==> a.exceeds(c),
        a.exceeds(b) && !a.exceeds(c) ==> c.exceeds(b),
{
}

/// Two promises of which neither exceeds the other are for logs that were accepted in the same
/// round and are equally long.
pub proof fn law_unranked_promises_have_equal_logs(a: PromiseMetaData, b: PromiseMetaData)
    ensures
        !a.exceeds(b) && !b.exceeds(a) <==> a.n_accepted == b.n_accepted && a.accepted_idx
            == b.accepted_idx,
{
}

/// The least promise exceeds no promise.
pub proof fn law_least_promise_exceeds_none(a: PromiseMetaData)
    ensures
        !PromiseMetaData::least().exceeds(a),
{
}

/// The round decides which of two promises is more up-to-date, however long the logs are. The
/// lengths count between promises of one round only.
pub proof fn law_round_then_length_ranks_promises(a: PromiseMetaData, b: PromiseMetaData)
    ensures
        b.n_accepted.before(a.n_accepted) ==> a.exceeds(b) && !b.exceeds(a),
        a.n_accepted == b.n_accepted ==> (a.exceeds(b) <==> a.accepted_idx > b.accepted_idx),
        a.n_accepted != b.n_accepted ==> (a.exceeds(b) <==> !b.exceeds(a)),
{
}

/// The components of the two rounds decide, the first difference between them first.
pub proof fn law_first_difference_of_rounds_ranks_promises(a: PromiseMetaData, b: PromiseMetaData)
    ensures
        ({
            let x = a.n_accepted;
            let y = b.n_accepted;
            &&& x.config_id > y.config_id ==> a.exceeds(b)
            &&& x.config_id == y.config_id && x.n > y.n ==> a.exceeds(b)
            &&& x.config_id == y.config_id && x.n == y.n && x.priority > y.priority ==> a.exceeds(b)
            &&& x.config_id == y.config_id && x.n == y.n && x.priority == y.priority && x.pid
                > y.pid ==> a.exceeds(b)
            &&& a.exceeds(b) && x.config_id == y.config_id && x.n == y.n && x.priority
                == y.priority && x.pid == y.pid ==> a.accepted_idx > b.accepted_idx
            &&& a.exceeds(b) ==> !b.exceeds(a)
        }),
{
}

/// Two promises are the same if and only if they differ in the decided index at most.
pub proof fn law_same_promise_up_to_decided_idx(a: PromiseMetaData, b: PromiseMetaData)
    ensures
        a.same_as(b) <==> a == (PromiseMetaData { decided_idx: a.decided_idx, ..b }),
        PromiseMetaData::least().accepted_idx == 0 && PromiseMetaData::least().decided_idx == 0
            && PromiseMetaData::least().pid == 0,
        !a.n_accepted.before(PromiseMetaData::least().n_accepted),
{
}

} // verus!
