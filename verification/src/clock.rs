//! Wall-clock time, as the records of this library hold it.

use vstd::prelude::*;

verus! {

/// An instant in UTC: whole seconds since the Unix epoch and the nanoseconds
/// that follow them.
#[derive(Clone, Copy, Debug, PartialEq, Eq, Structural)]
pub struct Timestamp {
    pub secs: i64,
    pub nanos: u32,
}

/// The present instant, read from `chrono::Utc::now`. Nothing is claimed of
/// it: it is whatever the system clock says.
#[verifier::external_body]
pub(crate) fn now() -> Timestamp {
    let at = chrono::Utc::now();
    Timestamp { secs: at.timestamp(), nanos: at.timestamp_subsec_nanos() }
}

/// Today's date in UTC as `chrono` formats it with `%Y%m%d`, read from
/// `chrono::Utc::now`. Nothing is claimed of it: it depends on the system
/// clock.
#[verifier::external_body]
pub(crate) fn today() -> String {
    chrono::Utc::now().format("%Y%m%d").to_string()
}

} // verus!
