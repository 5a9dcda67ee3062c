//! Identifiers and time, from the outside crates that provide them.
use vstd::prelude::*;

verus! {

/// Relies on uuid::Uuid::new_v4, read as its 128-bit value: a random
/// identifier whose version field is 4.
#[verifier::external_body]
pub(crate) fn new_payment_id() -> (r: u128)
    ensures
        (r >> 76u128) & 0xfu128 == 4u128,
{
    uuid::Uuid::new_v4().as_u128()
}

/// Relies on chrono::Utc::now and DateTime::timestamp: the current time in
/// seconds since 1970-01-01 UTC, which that source never makes negative.
#[verifier::external_body]
pub(crate) fn now_seconds() -> (r: u64) {
    chrono::Utc::now().timestamp() as u64
}

} // verus!
