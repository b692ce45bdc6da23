//! Values used where a configuration leaves them out.
use vstd::prelude::*;

verus! {

/// Capacity of the buffer of outgoing messages.
pub const BUFFER_SIZE: usize = 100000;

/// Capacity of the buffer of outgoing messages of the ballot leader election.
pub const BLE_BUFFER_SIZE: usize = 100;

/// Ticks between two rounds of leader election.
pub const ELECTION_TIMEOUT: u64 = 1;

/// Ticks before a message is sent again.
pub const RESEND_MESSAGE_TIMEOUT: u64 = 100;

/// Ticks before batched entries are flushed.
pub const FLUSH_BATCH_TIMEOUT: u64 = 200;

} // verus!
