//! Freshly generated identifiers and timestamps.
//!
//! Job, configuration and result identities are version-4 UUIDs rendered in
//! their hyphenated text form; record timestamps are Unix seconds. Both come
//! from outside calls whose outcomes depend on randomness or the clock, so
//! nothing is promised of the values beyond the fixed identifier length.

use vstd::prelude::*;

verus! {

/// Relies on `uuid::Uuid::new_v4`: a random version-4 UUID, rendered in the
/// hyphenated form, which is always 36 characters long. The value is random,
/// so nothing more is promised of it.
#[verifier::external_body]
pub fn fresh_id() -> (r: String)
    ensures
        r@.len() == 36,
{
    uuid::Uuid::new_v4().to_string()
}

/// Relies on `chrono::Utc::now` and `DateTime::timestamp`: the current Unix
/// time in seconds. The value depends on the clock, so nothing is promised
/// of it.
#[verifier::external_body]
pub fn now_timestamp() -> i64 {
    chrono::Utc::now().timestamp()
}

} // verus!
