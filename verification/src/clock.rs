//! Wall-clock time.

use vstd::prelude::*;

verus! {

/// A moment in UTC: whole seconds since 1970-01-01T00:00:00Z, and the
/// nanoseconds since the last whole second.
#[derive(Debug, Clone, Copy, PartialEq, Eq)]
pub struct Timestamp {
    pub secs: i64,
    pub nanos: u32,
}

/// The current time, read from `chrono::Utc::now`.
///
/// Trusted: the body is not verified, and nothing is claimed of the moment
/// that comes back. The two fields are `DateTime::timestamp` and
/// `DateTime::timestamp_subsec_nanos` of that moment, which together
/// determine it. `Utc::now` panics if the system clock stands before 1970.
#[verifier::external_body]
pub(crate) fn utc_now() -> Timestamp {
    let now = chrono::Utc::now();
    Timestamp { secs: now.timestamp(), nanos: now.timestamp_subsec_nanos() }
}

} // verus!
