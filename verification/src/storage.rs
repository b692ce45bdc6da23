//! What the library knows of log entries, snapshots and stop-signs.
use crate::ids::{ConfigurationId, NodeId};
use crate::quorum::FlexibleQuorum;
use vstd::prelude::*;

verus! {

/// Type of the entries stored in the log.
pub trait Entry: Clone + std::fmt::Debug {
    /// The snapshot type for this entry type.
    type Snapshot: Clone + std::fmt::Debug;
}

/// The snapshot type of entries that are never snapshotted.
#[derive(Clone, Copy, Debug, PartialEq, Eq, Structural)]
pub struct NoSnapshot;

/// The different types of snapshots.
#[derive(Clone, Debug)]
pub enum SnapshotType<T: Entry> {
    /// A snapshot of the whole log up to some index.
    Complete(T::Snapshot),
    /// A snapshot of the part of the log that the receiver lacks.
    Delta(T::Snapshot),
}

/// Configuration of an OmniPaxos cluster.
#[derive(Clone, Debug)]
pub struct ClusterConfig {
    /// The identifier of the cluster configuration.
    pub configuration_id: ConfigurationId,
    /// The nodes of the cluster.
    pub nodes: Vec<NodeId>,
    /// The read and write quorum sizes, where they are not a majority.
    pub flexible_quorum: Option<FlexibleQuorum>,
}

/// A stop-sign entry that marks the end of a configuration, used for reconfiguration.
#[derive(Clone, Debug)]
pub struct StopSign {
    /// The configuration that takes over.
    pub next_config: ClusterConfig,
    /// Metadata for the reconfiguration.
    pub metadata: Option<Vec<u8>>,
}

impl ClusterConfig {
    /// Whether the two configurations have the same contents.
    pub open spec fn same_as(self, other: Self) -> bool {
        &&& self.configuration_id == other.configuration_id
        &&& self.nodes@ == other.nodes@
        &&& self.flexible_quorum == other.flexible_quorum
    }
}

impl PartialEq for ClusterConfig {
    fn eq(&self, other: &Self) -> (r: bool)
        ensures
            r <==> self.configuration_id == other.configuration_id && self.nodes@ == other.nodes@
                && self.flexible_quorum == other.flexible_quorum,
    {
        let same_nodes = self.nodes == other.nodes;
        assert(same_nodes ==> self.nodes@ =~= other.nodes@);
        let same_quorum = match (self.flexible_quorum, other.flexible_quorum) {
            (Some(q1), Some(q2)) => q1 == q2,
            (None, None) => true,
            _ => false,
        };
        self.configuration_id == other.configuration_id && same_nodes && same_quorum
    }
}

impl vstd::std_specs::cmp::PartialEqSpecImpl for ClusterConfig {
    open spec fn obeys_eq_spec() -> bool {
        true
    }

    open spec fn eq_spec(&self, other: &Self) -> bool {
        self.same_as(*other)
    }
}

impl Eq for ClusterConfig {

}

impl StopSign {
    /// Whether the two stop-signs have the same contents.
    pub open spec fn same_as(self, other: Self) -> bool {
        &&& self.next_config.same_as(other.next_config)
        &&& match (self.metadata, other.metadata) {
            (Some(m1), Some(m2)) => m1@ == m2@,
            (None, None) => true,
            _ => false,
        }
    }
}

impl PartialEq for StopSign {
    fn eq(&self, other: &Self) -> (r: bool)
        ensures
            r <==> self.same_as(*other),
    {
        let same_metadata = match (&self.metadata, &other.metadata) {
            (Some(m1), Some(m2)) => {
                let same = *m1 == *m2;
                assert(same ==> m1@ =~= m2@);
                same
            },
            (None, None) => true,
            _ => false,
        };
        self.next_config == other.next_config && same_metadata
    }
}

impl vstd::std_specs::cmp::PartialEqSpecImpl for StopSign {
    open spec fn obeys_eq_spec() -> bool {
        true
    }

    open spec fn eq_spec(&self, other: &Self) -> bool {
        self.same_as(*other)
    }
}

impl Eq for StopSign {

}

/// Two stop-signs are the same if and only if no part of them differs: the identifier, the nodes in
/// their order and the quorum sizes of the next configuration, and the metadata.
pub proof fn law_stop_signs_are_compared_in_every_part(a: StopSign, b: StopSign)
    ensures
        ({
            let c = a.next_config;
            let d = b.next_config;
            &&& a.same_as(b) ==> c.same_as(d)
            &&& c.same_as(d) ==> c.configuration_id == d.configuration_id
            &&& c.same_as(d) ==> c.nodes@ == d.nodes@
            &&& c.same_as(d) ==> c.flexible_quorum == d.flexible_quorum
            &&& a.same_as(b) ==> (a.metadata is Some <==> b.metadata is Some)
            &&& a.same_as(b) && a.metadata is Some ==> a.metadata->0@ == b.metadata->0@
            &&& c.configuration_id == d.configuration_id && c.nodes@ == d.nodes@
                && c.flexible_quorum == d.flexible_quorum && (a.metadata is None
                && b.metadata is None || a.metadata is Some && b.metadata is Some
                && a.metadata->0@ == b.metadata->0@) ==> c.same_as(d) && a.same_as(b)
        }),
{
}

} // verus!
