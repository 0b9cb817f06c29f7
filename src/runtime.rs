//! The two facts that come from outside the program: the clock and a source
//! of fresh identifiers.

use vstd::prelude::*;

verus! {

/// Relies on `chrono::Utc::now` and `DateTime::timestamp_millis`: the current
/// time in milliseconds since the Unix epoch. `Utc::now` measures the system
/// clock from the epoch and panics when the clock reads an earlier instant,
/// so a returned value is never negative.
#[verifier::external_body]
pub fn now_millis() -> (r: i64)
    ensures
        r >= 0,
{
    chrono::Utc::now().timestamp_millis()
}

/// Relies on `uuid::Uuid::new_v4` and its `Display` impl: a random
/// version-4 identifier in the hyphenated form, which is 36 characters long.
#[verifier::external_body]
pub fn fresh_id() -> (r: String)
    ensures
        r@.len() == 36,
{
    uuid::Uuid::new_v4().to_string()
}

} // verus!
