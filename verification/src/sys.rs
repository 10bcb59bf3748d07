//! Fresh values from the process environment.
//!
//! The profile store stamps snapshots with the current time and mints
//! opaque identifiers. Both depend on the clock or on randomness, so
//! nothing is promised of the values beyond what the sources of the
//! crates involved show of every outcome; the operations that use them
//! state what holds whatever came back.

use vstd::prelude::*;

verus! {

/// Relies on std::time::SystemTime::now and duration_since: seconds since
/// the Unix epoch, failing when the clock reads before the epoch. The
/// value depends on the clock, so nothing is promised of it.
#[verifier::external_body]
pub(crate) fn now_unix_secs() -> Result<u64, String> {
    std::time::SystemTime::now()
        .duration_since(std::time::UNIX_EPOCH)
        .map(|d| d.as_secs())
        .map_err(|e| format!("Failed to get timestamp: {}", e))
}

/// Relies on chrono::Utc::now and to_rfc3339: the current instant as an
/// RFC 3339 string. The value depends on the clock, so nothing is
/// promised of it.
#[verifier::external_body]
pub(crate) fn now_rfc3339() -> String {
    chrono::Utc::now().to_rfc3339()
}

/// Relies on nanoid::format with the URL-safe alphabet: a random
/// identifier of exactly six characters (the alphabet is ASCII and the
/// generator stops at the requested length).
#[verifier::external_body]
pub(crate) fn snapshot_id() -> (r: String)
    ensures
        r@.len() == 6,
{
    nanoid::format(nanoid::rngs::default, &nanoid::alphabet::SAFE, 6)
}

/// Relies on uuid::Uuid::new_v4 and its Display form: a random version-4
/// UUID in the hyphenated form, which is 36 characters.
#[verifier::external_body]
pub(crate) fn fresh_distinct_id() -> (r: String)
    ensures
        r@.len() == 36,
{
    uuid::Uuid::new_v4().to_string()
}

} // verus!
