//! The wall clock.

use vstd::prelude::*;

verus! {

/// The current time in milliseconds since the Unix epoch, as chrono's
/// `Utc::now().timestamp_millis()` gives it. Nothing is claimed of the value:
/// two calls may return anything.
#[verifier::external_body]
pub(crate) fn now_millis() -> u64 {
    chrono::Utc::now().timestamp_millis() as u64
}

/// The current time in microseconds since the Unix epoch, as chrono's
/// `Utc::now().timestamp_micros()` gives it. Nothing is claimed of the value.
#[verifier::external_body]
pub(crate) fn now_micros() -> u64 {
    chrono::Utc::now().timestamp_micros() as u64
}

} // verus!
