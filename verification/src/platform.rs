//! The trusted boundary to the platform: wall-clock readings and
//! fresh identifier generation. Nothing useful can be promised of
//! either result, so callers take these values as arbitrary inputs.

use vstd::prelude::*;

verus! {

/// Relies on std::time::SystemTime::now: seconds since the Unix
/// epoch, or 0 if the clock reads before the epoch. The reading is
/// nondeterministic, so nothing is promised of the result.
#[verifier::external_body]
pub(crate) fn current_unix_seconds() -> u64 {
    std::time::SystemTime::now()
        .duration_since(std::time::UNIX_EPOCH)
        .unwrap_or_default()
        .as_secs()
}

/// Relies on uuid::Uuid::new_v4: a freshly drawn random 128-bit
/// identifier. The draw is random, so nothing is promised of the
/// result.
#[verifier::external_body]
pub(crate) fn fresh_id() -> u128 {
    uuid::Uuid::new_v4().as_u128()
}

} // verus!
