use vstd::prelude::*;

verus! {

/// `chrono::Utc::now`, read as whole seconds since the Unix epoch by
/// `DateTime::timestamp`. What comes back is the machine's clock, so nothing
/// is claimed of it.
#[verifier::external_body]
fn utc_now_seconds() -> (seconds: i64) {
    chrono::Utc::now().timestamp()
}

/// The seconds since the Unix epoch that a clock reading stands for in this
/// library: a reading before the epoch counts as the epoch.
pub open spec fn seconds_of(reading: i64) -> u64 {
    if reading < 0 {
        0
    } else {
        reading as u64
    }
}

/// Turns a clock reading into the seconds this library counts in.
pub fn clamp_seconds(reading: i64) -> (seconds: u64)
    ensures
        seconds == seconds_of(reading),
{
    if reading < 0 {
        0
    } else {
        reading as u64
    }
}

/// The time now, in seconds since the Unix epoch, as new documents are
/// stamped with it.
pub fn default_datetime() -> (now: u64)
    ensures
        exists|reading: i64| now == #[trigger] seconds_of(reading),
        now <= i64::MAX,
{
    let reading = utc_now_seconds();
    let now = clamp_seconds(reading);
    assert(now == seconds_of(reading));
    now
}

} // verus!
