//! Bookkeeping of a Sequence Paxos node: quorums, promises, sequence numbers and logical time.
pub mod ballot;
pub mod clock;
pub mod defaults;
pub mod ids;
pub mod laws;
pub mod leader;
pub mod log;
pub mod messages;
pub mod node_map;
pub mod promise;
pub mod quorum;
pub mod sequence;
pub mod storage;
