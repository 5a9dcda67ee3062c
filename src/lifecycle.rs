//! The lifecycle state machine of a payment instruction.
use vstd::prelude::*;
use crate::domain::PaymentStatus;

verus! {

/// States no transition leaves.
pub open spec fn is_terminal_spec(s: PaymentStatus) -> bool {
    s == PaymentStatus::Rejected || s == PaymentStatus::Cancelled || s == PaymentStatus::Failed
}

/// The permitted transitions.
pub open spec fn can_transition_spec(from: PaymentStatus, to: PaymentStatus) -> bool {
    match (from, to) {
        (PaymentStatus::Pending, PaymentStatus::Validated) => true,
        (PaymentStatus::Pending, PaymentStatus::Rejected) => true,
        (PaymentStatus::Validated, PaymentStatus::Accepted) => true,
        (PaymentStatus::Validated, PaymentStatus::Failed) => true,
        (PaymentStatus::Validated, PaymentStatus::Cancelled) => true,
        (PaymentStatus::Accepted, PaymentStatus::Cancelled) => true,
        _ => false,
    }
}

/// A rank that every permitted transition strictly increases.
pub open spec fn rank(s: PaymentStatus) -> nat {
    match s {
        PaymentStatus::Pending => 0,
        PaymentStatus::Validated => 1,
        PaymentStatus::Accepted => 2,
        _ => 3,
    }
}

pub fn is_terminal(s: PaymentStatus) -> (r: bool)
    ensures
        r == is_terminal_spec(s),
{
    match s {
        PaymentStatus::Rejected | PaymentStatus::Cancelled | PaymentStatus::Failed => true,
        _ => false,
    }
}

pub fn can_transition(from: PaymentStatus, to: PaymentStatus) -> (r: bool)
    ensures
        r == can_transition_spec(from, to),
{
    match (from, to) {
        (PaymentStatus::Pending, PaymentStatus::Validated) => true,
        (PaymentStatus::Pending, PaymentStatus::Rejected) => true,
        (PaymentStatus::Validated, PaymentStatus::Accepted) => true,
        (PaymentStatus::Validated, PaymentStatus::Failed) => true,
        (PaymentStatus::Validated, PaymentStatus::Cancelled) => true,
        (PaymentStatus::Accepted, PaymentStatus::Cancelled) => true,
        _ => false,
    }
}

/// Transitions are monotonic: each one strictly raises the rank, so no
/// state is ever re-entered.
pub proof fn lemma_transitions_monotonic(from: PaymentStatus, to: PaymentStatus)
    requires
        can_transition_spec(from, to),
    ensures
        rank(from) < rank(to),
{
}

/// Nothing leaves a terminal state.
pub proof fn lemma_terminal_is_final(from: PaymentStatus, to: PaymentStatus)
    requires
        is_terminal_spec(from),
    ensures
        !can_transition_spec(from, to),
{
}

} // verus!
