//! The wall clock.
use vstd::prelude::*;

verus! {

/// The refusal of work that needs the time when the system clock cannot
/// give it as seconds since the Unix epoch.
pub open spec fn clock_error() -> Seq<char> {
    "System clock is before the Unix epoch"@
}

#[verifier::external_body]
/// Seconds since the Unix epoch by the system clock:
/// `SystemTime::now().duration_since(UNIX_EPOCH)`, whose documentation
/// gives an error where the clock reads before the epoch, taken in whole
/// seconds, `None` there or where the seconds do not fit an `i64`. Nothing
/// more is promised of the value; it depends on the time of the call.
fn system_seconds() -> (t: Option<i64>)
    ensures
        t matches Some(s) ==> s >= 0,
{
    match std::time::SystemTime::now().duration_since(std::time::UNIX_EPOCH) {
        Ok(d) => i64::try_from(d.as_secs()).ok(),
        Err(_) => None,
    }
}

/// The current time in seconds since the Unix epoch, or the clock error.
pub fn unix_timestamp() -> (r: Result<i64, String>)
    ensures
        r matches Ok(s) ==> s >= 0,
        r matches Err(e) ==> e@ == clock_error(),
{
    match system_seconds() {
        Some(s) => Ok(s),
        None => Err(String::from_str("System clock is before the Unix epoch")),
    }
}

} // verus!
