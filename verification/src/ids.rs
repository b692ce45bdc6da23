//! Identifiers shared by every part of the library.
use vstd::prelude::*;

verus! {

/// ID for an OmniPaxos node.
pub type NodeId = u64;

/// ID for an OmniPaxos configuration, i.e. the set of servers in an OmniPaxos cluster.
pub type ConfigurationId = u32;

/// Index up to which (exclusive) a log has been trimmed.
pub type TrimmedIndex = usize;

/// Message to display when reading from the storage failed.
pub const READ_ERROR_MSG: &'static str = "Error reading from storage.";

/// Message to display when writing to the storage failed.
pub const WRITE_ERROR_MSG: &'static str = "Error writing to storage.";

} // verus!
