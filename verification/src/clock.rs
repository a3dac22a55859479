use vstd::prelude::*;

verus! {

/// A point in time as seconds since the Unix epoch and the nanoseconds past that second.
#[derive(Clone, Copy, Debug, PartialEq, Eq, Structural)]
pub struct Timestamp {
    pub secs: i64,
    pub nanos: u32,
}

/// The current time, from `chrono::Utc::now`.
///
/// `Utc::now` takes the time since the Unix epoch from the system clock (it panics on a
/// clock set before 1970), so the seconds are not negative, and its nanoseconds come from
/// `Duration::subsec_nanos`, below one second. Which time it is, is not stated.
#[verifier::external_body]
pub(crate) fn utc_now() -> (t: Timestamp)
    ensures
        t.secs >= 0,
        t.nanos < 1_000_000_000,
{
    let now = chrono::Utc::now();
    Timestamp { secs: now.timestamp(), nanos: now.timestamp_subsec_nanos() }
}

} // verus!
