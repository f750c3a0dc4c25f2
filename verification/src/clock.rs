//! The system clock.
use std::time::{Duration, SystemTime, SystemTimeError};
use vstd::prelude::*;

verus! {

/// A time that the system clock showed.
#[verifier::external_type_specification]
#[verifier::external_body]
pub struct ExSystemTime(SystemTime);

/// The error of `SystemTime::duration_since`.
#[verifier::external_type_specification]
#[verifier::external_body]
pub struct ExSystemTimeError(SystemTimeError);

/// `SystemTime::now`: the time that the system clock shows. Nothing is claimed of it.
pub assume_specification[ SystemTime::now ]() -> SystemTime
;

/// `Duration::as_secs`: the whole seconds of a duration. Nothing is claimed of them.
pub assume_specification[ Duration::as_secs ](duration: &Duration) -> u64
;

/// `SystemTime::duration_since` the Unix epoch, which fails for a time before it.
/// Nothing is claimed of the outcome.
#[verifier::external_body]
fn since_epoch(time: SystemTime) -> Result<Duration, SystemTimeError> {
    time.duration_since(std::time::UNIX_EPOCH)
}

/// The seconds since the Unix epoch for a clock that is `elapsed` seconds past it, 0 for
/// a clock that shows an earlier time.
pub fn unix_secs(elapsed: Option<u64>) -> (secs: u64)
    ensures
        secs == match elapsed {
            Some(elapsed) => elapsed,
            None => 0,
        },
{
    match elapsed {
        Some(elapsed) => elapsed,
        None => 0,
    }
}

/// `unix_secs` of the system clock. The time is the machine's to tell, so any value is
/// possible.
pub(crate) fn now_unix_secs() -> u64 {
    let elapsed: Option<u64> = match since_epoch(SystemTime::now()) {
        Ok(elapsed) => Some(elapsed.as_secs()),
        Err(_) => None,
    };
    unix_secs(elapsed)
}

/// A clock past the epoch tells the seconds since, all of them; one before it tells 0, like
/// one that stands at it.
pub proof fn law_seconds_since_the_epoch(elapsed: u64, after: u64, at: u64, before: u64)
    requires
        call_ensures(unix_secs, (Some(elapsed),), after),
        call_ensures(unix_secs, (Some(0u64),), at),
        call_ensures(unix_secs, (None::<u64>,), before),
    ensures
        after == elapsed,
        before == at,
{
}

} // verus!
