//! Fresh identities for clips, segments and export jobs.

use vstd::prelude::*;

verus! {

/// Relies on `uuid::Uuid::new_v4` and its `Display` form: a fresh random
/// identifier rendered as 32 lower-case hex digits in five hyphen-separated
/// groups, 36 characters in all. Nothing further can be promised of a random
/// value.
#[verifier::external_body]
pub fn fresh_id() -> (r: String)
    ensures
        r@.len() == 36,
{
    uuid::Uuid::new_v4().to_string()
}

} // verus!
