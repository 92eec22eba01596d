//! Freshly drawn identifiers and clock readings.

use vstd::prelude::*;

verus! {

/// Relies on `uuid::Uuid::new_v4`: a freshly generated random (version 4)
/// UUID, handed out as its 128-bit value. Nothing is promised of a random
/// identifier.
#[verifier::external_body]
pub(crate) fn fresh_id() -> u128 {
    uuid::Uuid::new_v4().as_u128()
}

/// Relies on `chrono::Utc::now`: the current UTC time, handed out as
/// microseconds since the Unix epoch. Nothing is promised of the clock.
#[verifier::external_body]
pub(crate) fn now_micros() -> i64 {
    chrono::Utc::now().timestamp_micros()
}

} // verus!
