//! Fresh identifiers and the current time.
use vstd::prelude::*;

verus! {

/// Relies on `uuid::Uuid::new_v4` and `Uuid::as_u128`: a random version 4 UUID
/// as its 128-bit value. Nothing is promised of the value.
#[verifier::external_body]
pub(crate) fn new_id() -> (r: u128) {
    uuid::Uuid::new_v4().as_u128()
}

/// Relies on `chrono::Utc::now` and `DateTime::timestamp_micros`: the current
/// time in microseconds since the Unix epoch. Nothing is promised of the value.
#[verifier::external_body]
pub fn current_time() -> (r: i64) {
    chrono::Utc::now().timestamp_micros()
}

} // verus!
