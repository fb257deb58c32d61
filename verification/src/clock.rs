//! Wall-clock readings. Nothing is promised of their values: every caller
//! is verified for whatever time comes back.

use vstd::prelude::*;

verus! {

/// `SystemTime::now()` as whole seconds since the Unix epoch; 0 if the
/// clock reads before the epoch.
#[verifier::external_body]
pub(crate) fn now_secs() -> u64 {
    std::time::SystemTime::now().duration_since(std::time::UNIX_EPOCH).map(|d| d.as_secs()).unwrap_or(0)
}

/// `SystemTime::now()` as milliseconds since the Unix epoch (truncated to
/// 64 bits); 0 if the clock reads before the epoch.
#[verifier::external_body]
pub(crate) fn now_millis() -> u64 {
    std::time::SystemTime::now().duration_since(std::time::UNIX_EPOCH).map(|d| d.as_millis() as u64).unwrap_or(0)
}

/// `SystemTime::now()` as signed seconds since the Unix epoch; 0 if the
/// clock reads before the epoch.
#[verifier::external_body]
pub(crate) fn now_secs_signed() -> i64 {
    std::time::SystemTime::now().duration_since(std::time::UNIX_EPOCH).map(|d| d.as_secs() as i64).unwrap_or(0)
}

} // verus!
