//! The creation timestamp given to newly discovered clips.

use vstd::prelude::*;

verus! {

/// Relies on `chrono::Utc::now` and `timestamp`: the current time as whole
/// seconds since the Unix epoch. The value depends on the clock, so nothing
/// is promised of it; callers state what holds whatever came back.
#[verifier::external_body]
pub fn now_timestamp() -> i64 {
    chrono::Utc::now().timestamp()
}

} // verus!
