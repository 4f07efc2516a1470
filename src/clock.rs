use vstd::prelude::*;
use std::time::{Duration, SystemTime, SystemTimeError};

verus! {

#[verifier::external_type_specification]
#[verifier::external_body]
pub struct ExSystemTime(SystemTime);

#[verifier::external_type_specification]
#[verifier::external_body]
pub struct ExSystemTimeError(SystemTimeError);

/// Relies on std's `SystemTime::now`: the current wall-clock time, of which
/// nothing can be promised.
pub assume_specification[ SystemTime::now ]() -> SystemTime;

/// Relies on std's `Duration::as_millis`: the whole milliseconds of a span.
pub assume_specification[ Duration::as_millis ](d: &Duration) -> u128;

/// Relies on std's `SystemTime::duration_since` with the Unix epoch: the span
/// since the epoch, or an error when the clock reads earlier than it.
#[verifier::external_body]
fn since_unix_epoch(t: &SystemTime) -> Result<Duration, SystemTimeError> {
    t.duration_since(std::time::UNIX_EPOCH)
}

/// Why the wall clock could not be read as epoch milliseconds.
#[derive(Debug, Clone, Copy, PartialEq, Eq, Structural)]
pub enum ClockError {
    /// The system clock reads a time before the Unix epoch.
    BeforeEpoch,
}

/// Whole milliseconds of a reading of the span since the Unix epoch: `Ok`
/// exactly when the reading is, `BeforeEpoch` when the clock read earlier
/// than the epoch.
pub fn millis_since_epoch(since: Result<Duration, SystemTimeError>) -> (r: Result<u128, ClockError>)
    ensures
        r is Ok <==> since is Ok,
        since is Err ==> r == Err::<u128, ClockError>(ClockError::BeforeEpoch),
{
    match since {
        Ok(d) => Ok(d.as_millis()),
        Err(_) => Err(ClockError::BeforeEpoch),
    }
}

/// Milliseconds since the Unix epoch by the system clock; `BeforeEpoch`
/// when the clock reads earlier than the epoch.
pub fn get_current_millis() -> (r: Result<u128, ClockError>)
    ensures
        r is Err ==> r == Err::<u128, ClockError>(ClockError::BeforeEpoch),
{
    let now = SystemTime::now();
    millis_since_epoch(since_unix_epoch(&now))
}

/// Milliseconds from `start` to `now`, zero when `now` is earlier.
pub fn elapsed_millis(start: u128, now: u128) -> (r: u128)
    ensures
        r == if now >= start {
            now - start
        } else {
            0
        },
{
    if now >= start {
        now - start
    } else {
        0
    }
}

} // verus!
