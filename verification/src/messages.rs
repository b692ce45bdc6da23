//! Messages of Sequence Paxos that the leader's bookkeeping takes in.
use crate::ballot::Ballot;
use crate::log::LogSync;
use crate::storage::Entry;
use vstd::prelude::*;

verus! {

/// Promise message sent by a follower in response to a prepare of the leader.
#[derive(Clone, Debug)]
pub struct Promise<T: Entry> {
    /// The current round.
    pub n: Ballot,
    /// The latest round in which an entry was accepted.
    pub n_accepted: Ballot,
    /// The decided index of this follower.
    pub decided_idx: usize,
    /// The accepted index of this follower.
    pub accepted_idx: usize,
    /// The log update which the leader applies to its log in order to sync with this follower, if
    /// the follower is more up-to-date.
    pub log_sync: Option<LogSync<T>>,
}

} // verus!
