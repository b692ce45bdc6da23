//! Ballots, the totally ordered rounds of leader election.
use crate::ids::{ConfigurationId, NodeId};
use std::cmp::Ordering;
use vstd::prelude::*;

verus! {

/// A round of Sequence Paxos. Ballots are ordered by configuration, then number, then priority,
/// then process.
#[derive(Clone, Copy, Debug, PartialEq, Eq, Structural, Ord)]
pub struct Ballot {
    /// The configuration of the replica that this ballot is part of.
    pub config_id: ConfigurationId,
    /// Ballot number.
    pub n: u32,
    /// Custom priority parameter.
    pub priority: u32,
    /// The pid of the process.
    pub pid: NodeId,
}

impl Ballot {
    /// The ballot with the given components.
    pub fn with(config_id: ConfigurationId, n: u32, priority: u32, pid: NodeId) -> (b: Self)
        ensures
            b == (Ballot { config_id, n, priority, pid }),
    {
        Ballot { config_id, n, priority, pid }
    }

    /// Whether this ballot comes strictly before `other`.
    pub open spec fn before(self, other: Self) -> bool {
        ||| self.config_id < other.config_id
        ||| self.config_id == other.config_id && self.n < other.n
        ||| self.config_id == other.config_id && self.n == other.n && self.priority
            < other.priority
        ||| self.config_id == other.config_id && self.n == other.n && self.priority
            == other.priority && self.pid < other.pid
    }
}

impl Default for Ballot {
    fn default() -> (b: Self)
        ensures
            b == (Ballot { config_id: 0, n: 0, priority: 0, pid: 0 }),
    {
        Ballot { config_id: 0, n: 0, priority: 0, pid: 0 }
    }
}

impl PartialOrd for Ballot {
    fn partial_cmp(&self, other: &Self) -> (r: Option<Ordering>)
        ensures
            self.config_id < other.config_id ==> r == Some(Ordering::Less),
            self.config_id > other.config_id ==> r == Some(Ordering::Greater),
            self.config_id == other.config_id && self.n < other.n ==> r == Some(Ordering::Less),
            self.config_id == other.config_id && self.n > other.n ==> r == Some(Ordering::Greater),
            self.config_id == other.config_id && self.n == other.n && self.priority
                < other.priority ==> r == Some(Ordering::Less),
            self.config_id == other.config_id && self.n == other.n && self.priority
                > other.priority ==> r == Some(Ordering::Greater),
            self.config_id == other.config_id && self.n == other.n && self.priority
                == other.priority && self.pid < other.pid ==> r == Some(Ordering::Less),
            self.config_id == other.config_id && self.n == other.n && self.priority
                == other.priority && self.pid > other.pid ==> r == Some(Ordering::Greater),
            *self == *other ==> r == Some(Ordering::Equal),
    {
        if self.config_id != other.config_id {
            if self.config_id < other.config_id {
                Some(Ordering::Less)
            } else {
                Some(Ordering::Greater)
            }
        } else if self.n != other.n {
            if self.n < other.n {
                Some(Ordering::Less)
            } else {
                Some(Ordering::Greater)
            }
        } else if self.priority != other.priority {
            if self.priority < other.priority {
                Some(Ordering::Less)
            } else {
                Some(Ordering::Greater)
            }
        } else if self.pid != other.pid {
            if self.pid < other.pid {
                Some(Ordering::Less)
            } else {
                Some(Ordering::Greater)
            }
        } else {
            Some(Ordering::Equal)
        }
    }
}

impl vstd::std_specs::cmp::PartialOrdSpecImpl for Ballot {
    open spec fn obeys_partial_cmp_spec() -> bool {
        true
    }

    open spec fn partial_cmp_spec(&self, other: &Self) -> Option<Ordering> {
        if self.before(*other) {
            Some(Ordering::Less)
        } else if other.before(*self) {
            Some(Ordering::Greater)
        } else {
            Some(Ordering::Equal)
        }
    }
}

/// Ballots are totally ordered: of two different ballots exactly one comes before the other, no
/// ballot comes before itself, and the order is transitive.
pub proof fn law_ballots_are_totally_ordered(a: Ballot, b: Ballot, c: Ballot)
    ensures
        !a.before(a),
        a.before(b) ==> !b.before(a),
        a != b ==> a.before(b) || b.before(a),
        a.before(b) && b.before(c) ==> a.before(c),
{
}

/// The first component in which two ballots differ decides which comes first: the configuration,
/// then the number, then the priority, then the process.
pub proof fn law_first_difference_orders_ballots(a: Ballot, b: Ballot)
    ensures
        a.config_id < b.config_id ==> a.before(b) && !b.before(a),
        a.config_id == b.config_id && a.n < b.n ==> a.before(b) && !b.before(a),
        a.config_id == b.config_id && a.n == b.n && a.priority < b.priority ==> a.before(b)
            && !b.before(a),
        a.config_id == b.config_id && a.n == b.n && a.priority == b.priority && a.pid < b.pid
            ==> a.before(b) && !b.before(a),
{
}

} // verus!
