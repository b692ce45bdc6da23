//! Quorums of the prepare and the accept phase.
use crate::ids::NodeId;
use vstd::prelude::*;
use vstd::set_lib::*;

verus! {

/// Flexible quorums can be used to increase or decrease the read and write quorum sizes, for
/// different latency vs fault tolerance tradeoffs.
#[derive(Copy, Clone, Debug, PartialEq, Eq, Structural)]
pub struct FlexibleQuorum {
    /// The number of nodes a leader needs to consult to get an up-to-date view of the log.
    pub read_quorum_size: usize,
    /// The number of acknowledgments a leader needs to commit an entry to the log.
    pub write_quorum_size: usize,
}

/// The type of quorum used by the OmniPaxos cluster.
#[derive(Copy, Clone, Debug)]
pub enum Quorum {
    /// Both the read quorum and the write quorums are a majority of nodes.
    Majority(usize),
    /// The read and write quorum sizes are defined by a `FlexibleQuorum`.
    Flexible(FlexibleQuorum),
}

impl Quorum {
    /// The quorum of a cluster of `num_nodes` nodes: the flexible one where it is configured, else
    /// a majority.
    pub open spec fn configured(flexible: Option<FlexibleQuorum>, num_nodes: nat) -> Quorum {
        match flexible {
            Some(flexible) => Quorum::Flexible(flexible),
            None => Quorum::Majority((num_nodes / 2 + 1) as usize),
        }
    }

    /// The number of promises needed in the prepare phase.
    pub open spec fn prepare_size(self) -> nat {
        match self {
            Quorum::Majority(majority) => majority as nat,
            Quorum::Flexible(flexible) => flexible.read_quorum_size as nat,
        }
    }

    /// The number of acknowledgments needed in the accept phase.
    pub open spec fn accept_size(self) -> nat {
        match self {
            Quorum::Majority(majority) => majority as nat,
            Quorum::Flexible(flexible) => flexible.write_quorum_size as nat,
        }
    }

    /// The quorum of a cluster of `num_nodes` nodes.
    pub fn with(flexible_quorum_config: Option<FlexibleQuorum>, num_nodes: usize) -> (q: Self)
        ensures
            q == Quorum::configured(flexible_quorum_config, num_nodes as nat),
            flexible_quorum_config matches Some(f) ==> q == Quorum::Flexible(f),
            flexible_quorum_config is None ==> q == Quorum::Majority((num_nodes / 2 + 1) as usize),
            flexible_quorum_config is None ==> q.prepare_size() == num_nodes / 2 + 1
                && q.accept_size() == num_nodes / 2 + 1,
    {
        match flexible_quorum_config {
            Some(FlexibleQuorum { read_quorum_size, write_quorum_size }) => Quorum::Flexible(
                FlexibleQuorum { read_quorum_size, write_quorum_size },
            ),
            None => Quorum::Majority(num_nodes / 2 + 1),
        }
    }

    /// Whether `num_nodes` promises are enough in the prepare phase.
    pub fn is_prepare_quorum(&self, num_nodes: usize) -> (enough: bool)
        ensures
            enough == (num_nodes >= self.prepare_size()),
            *self matches Quorum::Majority(majority) ==> enough == (num_nodes >= majority),
            *self matches Quorum::Flexible(f) ==> enough == (num_nodes >= f.read_quorum_size),
    {
        match self {
            Quorum::Majority(majority) => num_nodes >= *majority,
            Quorum::Flexible(flex_quorum) => num_nodes >= flex_quorum.read_quorum_size,
        }
    }

    /// Whether `num_nodes` acknowledgments are enough in the accept phase.
    pub fn is_accept_quorum(&self, num_nodes: usize) -> (enough: bool)
        ensures
            enough == (num_nodes >= self.accept_size()),
            *self matches Quorum::Majority(majority) ==> enough == (num_nodes >= majority),
            *self matches Quorum::Flexible(f) ==> enough == (num_nodes >= f.write_quorum_size),
    {
        match self {
            Quorum::Majority(majority) => num_nodes >= *majority,
            Quorum::Flexible(flex_quorum) => num_nodes >= flex_quorum.write_quorum_size,
        }
    }
}

/// Without a flexible quorum, both quorums are the least majority of the nodes: more than half of
/// them, and no fewer nodes are.
pub proof fn law_default_quorum_is_least_majority(num_nodes: usize)
    ensures
        ({
            let q = Quorum::configured(None, num_nodes as nat);
            &&& q.prepare_size() == q.accept_size()
            &&& 2 * q.prepare_size() > num_nodes
            &&& 2 * (q.prepare_size() - 1) <= num_nodes
            &&& num_nodes > 0 ==> q.prepare_size() <= num_nodes
        }),
{
}

/// Where the two quorum sizes together exceed the number of nodes, every prepare quorum meets
/// every accept quorum in some node.
pub proof fn law_quorums_intersect(
    q: Quorum,
    nodes: Set<NodeId>,
    prepared: Set<NodeId>,
    accepted: Set<NodeId>,
)
    requires
        nodes.finite(),
        prepared.subset_of(nodes),
        accepted.subset_of(nodes),
        q.prepare_size() + q.accept_size() > nodes.len(),
        prepared.len() >= q.prepare_size(),
        accepted.len() >= q.accept_size(),
    ensures
        exists|pid: NodeId| prepared.contains(pid) && accepted.contains(pid),
{
    lemma_len_subset(prepared, nodes);
    lemma_len_subset(accepted, nodes);
    if forall|pid: NodeId| !(prepared.contains(pid) && accepted.contains(pid)) {
        lemma_set_disjoint_lens(prepared, accepted);
        lemma_len_subset(prepared + accepted, nodes);
    }
}

/// Any two majorities of a cluster share a node.
pub proof fn law_majorities_intersect(
    nodes: Set<NodeId>,
    prepared: Set<NodeId>,
    accepted: Set<NodeId>,
)
    requires
        nodes.finite(),
        nodes.len() <= usize::MAX,
        prepared.subset_of(nodes),
        accepted.subset_of(nodes),
        prepared.len() >= Quorum::configured(None, nodes.len()).prepare_size(),
        accepted.len() >= Quorum::configured(None, nodes.len()).accept_size(),
    ensures
        exists|pid: NodeId| prepared.contains(pid) && accepted.contains(pid),
{
    law_quorums_intersect(Quorum::configured(None, nodes.len()), nodes, prepared, accepted);
}

/// A cluster that is given quorum sizes uses them, whatever its number of nodes: the read quorum size
/// in the prepare phase and the write quorum size in the accept phase. Neither size has any bearing on
/// the other phase.
pub proof fn law_flexible_sizes_are_used(f: FlexibleQuorum, other: FlexibleQuorum, num_nodes: usize)
    ensures
        ({
            let q = Quorum::configured(Some(f), num_nodes as nat);
            let r = Quorum::configured(Some(other), num_nodes as nat);
            &&& q == Quorum::Flexible(f)
            &&& q.prepare_size() == f.read_quorum_size
            &&& q.accept_size() == f.write_quorum_size
            &&& f.read_quorum_size == other.read_quorum_size ==> q.prepare_size()
                == r.prepare_size()
            &&& f.write_quorum_size == other.write_quorum_size ==> q.accept_size()
                == r.accept_size()
        }),
{
}

/// A majority is the same number of nodes in both phases. Without given sizes it is more than half of
/// the nodes, and no more than that takes.
pub proof fn law_majority_sizes(majority: usize, num_nodes: usize)
    ensures
        Quorum::Majority(majority).prepare_size() == majority,
        Quorum::Majority(majority).accept_size() == majority,
        Quorum::configured(None, num_nodes as nat) matches Quorum::Majority(m) && num_nodes < 2 * m
            <= num_nodes + 2,
{
}

} // verus!
