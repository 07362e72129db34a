//! Fresh identifiers and wall-clock readings, from outside sources.

use vstd::prelude::*;

verus! {

/// Relies on uuid::Uuid::new_v4 and its Display form: a fresh random
/// version-4 UUID, rendered hyphenated as 36 characters. Nothing more can be
/// promised of a random value.
#[verifier::external_body]
pub fn new_uuid() -> (r: String)
    ensures
        r@.len() == 36,
{
    uuid::Uuid::new_v4().to_string()
}

/// Relies on chrono::Utc::now: the current wall-clock time, clamped here to
/// whole milliseconds since the Unix epoch. Nothing can be promised of a
/// clock reading.
#[verifier::external_body]
pub fn now_millis() -> u64 {
    let ms = chrono::Utc::now().timestamp_millis();
    if ms < 0 {
        0
    } else {
        ms as u64
    }
}

/// Relies on chrono::Utc::now and DateTime::to_rfc3339: the current
/// wall-clock time as an ISO-8601 string. Nothing can be promised of a clock
/// reading.
#[verifier::external_body]
pub fn now_rfc3339() -> String {
    chrono::Utc::now().to_rfc3339()
}

} // verus!
