//! Identifiers and wall-clock time, held as plain integers.
//!
//! Identifiers are random version-4 UUIDs, kept as their 128-bit value.
//! Instants are microseconds since the Unix epoch, in UTC.
use vstd::prelude::*;

verus! {

/// An instant in UTC, as microseconds since 1970-01-01T00:00:00Z.
#[derive(Clone, Copy, Debug, PartialEq, Eq, Structural)]
pub struct Timestamp {
    pub micros: i64,
}

impl Timestamp {
    /// The instant `micros` microseconds after the Unix epoch.
    pub fn from_micros(micros: i64) -> (r: Timestamp)
        ensures
            r.micros == micros,
    {
        Timestamp { micros }
    }
}

/// Relies on uuid::Uuid::new_v4 and Uuid::as_u128: a fresh random version-4
/// identifier, as its 128-bit big-endian value. Nothing is promised about
/// which value comes back.
#[verifier::external_body]
pub(crate) fn new_id() -> (r: u128) {
    uuid::Uuid::new_v4().as_u128()
}

/// Relies on chrono::Utc::now and DateTime::timestamp_micros: the current
/// wall-clock time. `Utc::now` measures from the Unix epoch and panics before
/// it, so the value it returns is never negative.
#[verifier::external_body]
pub(crate) fn now() -> (r: Timestamp)
    ensures
        r.micros >= 0,
{
    Timestamp { micros: chrono::Utc::now().timestamp_micros() }
}

} // verus!
