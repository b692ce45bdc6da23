//! Sequence numbers, by which a follower notices that accept messages went missing.
use std::cmp::Ordering;
use vstd::prelude::*;

verus! {

/// How an incoming message stands to the sequence received so far in the accept phase.
#[derive(Clone, Copy, Debug, PartialEq, Eq, Structural)]
pub enum MessageStatus {
    /// Expected message sequence progression.
    Expected,
    /// Identified a message sequence break.
    DroppedPreceding,
    /// An already identified message sequence break.
    Outdated,
}

/// Keeps track of the ordering of messages in the accept phase. Sequence numbers are ordered by
/// session first, then by counter.
#[derive(Clone, Copy, Debug, PartialEq, Eq, Structural, Ord)]
pub struct SequenceNumber {
    /// Meant to refer to a TCP session.
    pub session: u64,
    /// The sequence number with respect to a session.
    pub counter: u64,
}

impl SequenceNumber {
    /// The number before the first session and the first message.
    pub open spec fn zero() -> Self {
        SequenceNumber { session: 0, counter: 0 }
    }

    /// Whether this sequence number comes strictly before `other`.
    pub open spec fn before(self, other: Self) -> bool {
        self.session < other.session || (self.session == other.session && self.counter
            < other.counter)
    }

    /// Whether `other` directly follows this sequence number within its session.
    pub open spec fn directly_followed_by(self, other: Self) -> bool {
        self.session == other.session && self.counter + 1 == other.counter
    }

    /// What a message numbered `msg` is to a follower that stands at this sequence number.
    pub open spec fn status_of(self, msg: Self) -> MessageStatus {
        if self.directly_followed_by(msg) {
            MessageStatus::Expected
        } else if self.before(msg) {
            MessageStatus::DroppedPreceding
        } else {
            MessageStatus::Outdated
        }
    }

    /// Compares this sequence number with the sequence number of an incoming message.
    pub fn check_msg_status(&self, msg_seq_num: SequenceNumber) -> (status: MessageStatus)
        requires
            msg_seq_num.session == self.session ==> self.counter < u64::MAX,
        ensures
            status == self.status_of(msg_seq_num),
            status is Expected <==> msg_seq_num.session == self.session && msg_seq_num.counter
                == self.counter + 1,
            status is Outdated <==> msg_seq_num == *self || msg_seq_num.before(*self),
            status is Outdated <==> msg_seq_num.session < self.session || (msg_seq_num.session
                == self.session && msg_seq_num.counter <= self.counter),
    {
        if msg_seq_num.session == self.session && msg_seq_num.counter == self.counter + 1 {
            MessageStatus::Expected
        } else if msg_seq_num <= *self {
            MessageStatus::Outdated
        } else {
            MessageStatus::DroppedPreceding
        }
    }
}

impl Default for SequenceNumber {
    fn default() -> (s: Self)
        ensures
            s == SequenceNumber::zero(),
            s.session == 0,
            s.counter == 0,
    {
        SequenceNumber { session: 0, counter: 0 }
    }
}

impl PartialOrd for SequenceNumber {
    fn partial_cmp(&self, other: &Self) -> (r: Option<Ordering>)
        ensures
            self.session < other.session ==> r == Some(Ordering::Less),
            self.session > other.session ==> r == Some(Ordering::Greater),
            self.session == other.session && self.counter < other.counter ==> r == Some(
                Ordering::Less,
            ),
            self.session == other.session && self.counter > other.counter ==> r == Some(
                Ordering::Greater,
            ),
            *self == *other ==> r == Some(Ordering::Equal),
    {
        if self.session < other.session {
            Some(Ordering::Less)
        } else if self.session > other.session {
            Some(Ordering::Greater)
        } else if self.counter < other.counter {
            Some(Ordering::Less)
        } else if self.counter > other.counter {
            Some(Ordering::Greater)
        } else {
            Some(Ordering::Equal)
        }
    }
}

impl vstd::std_specs::cmp::PartialOrdSpecImpl for SequenceNumber {
    open spec fn obeys_partial_cmp_spec() -> bool {
        true
    }

    open spec fn partial_cmp_spec(&self, other: &Self) -> Option<Ordering> {
        if self.before(*other) {
            Some(Ordering::Less)
        } else if other.before(*self) {
            Some(Ordering::Greater)
        } else {
            Some(Ordering::Equal)
        }
    }
}

/// Sequence numbers are totally ordered.
pub proof fn law_sequence_numbers_are_totally_ordered(
    a: SequenceNumber,
    b: SequenceNumber,
    c: SequenceNumber,
)
    ensures
        !a.before(a),
        a.before(b) ==> !b.before(a),
        a != b ==> a.before(b) || b.before(a),
        a.before(b) && b.before(c) ==> a.before(c),
{
}

/// At each sequence number exactly one message is expected next, and it is the least of those
/// that are not outdated in the same session.
pub proof fn law_expected_message_is_unique(
    at: SequenceNumber,
    a: SequenceNumber,
    b: SequenceNumber,
)
    requires
        at.status_of(a) is Expected,
    ensures
        at.status_of(b) is Expected ==> a == b,
        b.session == at.session && b.before(a) ==> at.status_of(b) is Outdated,
        b.session == at.session && a.before(b) ==> at.status_of(b) is DroppedPreceding,
{
}

/// A message that is outdated stays so: moving to a later sequence number never revives it, and
/// after a message was taken the same message is outdated.
pub proof fn law_outdated_is_for_good(at: SequenceNumber, later: SequenceNumber, msg: SequenceNumber)
    requires
        at.before(later),
    ensures
        at.status_of(msg) is Outdated ==> later.status_of(msg) is Outdated,
        msg.status_of(msg) is Outdated,
{
}

/// A message of a later session is never expected: it shows a break.
pub proof fn law_new_session_is_a_break(at: SequenceNumber, msg: SequenceNumber)
    requires
        at.session < msg.session,
    ensures
        at.status_of(msg) is DroppedPreceding,
{
}

/// The session decides the order of two sequence numbers, and the counter within one session. No
/// sequence number comes before the one that numbering starts from.
pub proof fn law_session_then_counter_orders_sequence_numbers(a: SequenceNumber, b: SequenceNumber)
    ensures
        a.session < b.session ==> a.before(b) && !b.before(a),
        a.session == b.session ==> (a.before(b) <==> a.counter < b.counter),
        !a.before(SequenceNumber::zero()),
        SequenceNumber::zero().session == 0 && SequenceNumber::zero().counter == 0,
{
}

/// A message is expected if and only if it is the one right after in the same session; of the
/// others, those that do not lie ahead are outdated, and those that do show a break.
pub proof fn law_message_status(at: SequenceNumber, msg: SequenceNumber)
    ensures
        at.status_of(msg) is Expected <==> msg.session == at.session && msg.counter - at.counter
            == 1,
        at.status_of(msg) is Outdated <==> msg.session < at.session || (msg.session == at.session
            && msg.counter <= at.counter),
        at.status_of(msg) is DroppedPreceding <==> msg.session > at.session || (msg.session
            == at.session && msg.counter - at.counter > 1),
        at.directly_followed_by(msg) <==> msg.session == at.session && msg.counter - at.counter
            == 1,
{
}

} // verus!
