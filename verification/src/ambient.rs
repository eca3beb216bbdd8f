//! What the library takes from its surroundings: fresh identifiers, random
//! picks and the time of day. Nothing here is the same twice, so each
//! function promises only what holds of whatever comes back.

use vstd::prelude::*;
use rand::Rng;
use std::time::{SystemTime, UNIX_EPOCH};
use uuid::Uuid;

verus! {

/// `std::time::SystemTime`: a reading of the system clock, carried from
/// the call that takes it to the call that measures it.
#[verifier::external_type_specification]
#[verifier::external_body]
pub struct ExSystemTime(SystemTime);

/// How long the text of an identifier is.
pub const ID_LENGTH: usize = 36;

/// `Uuid::new_v4`, written out by `to_string`: a random identifier in the
/// hyphenated form, which is 36 characters long.
#[verifier::external_body]
pub(crate) fn fresh_id() -> (id: String)
    ensures
        id@.len() == ID_LENGTH,
{
    Uuid::new_v4().to_string()
}

/// `Rng::gen_range` on the thread's generator: some number from 0 up to,
/// and not including, `bound`.
#[verifier::external_body]
pub(crate) fn random_below(bound: u32) -> (pick: u32)
    requires
        bound > 0,
    ensures
        pick < bound,
{
    rand::thread_rng().gen_range(0..bound)
}

/// `SystemTime::now`: the system clock's reading.
#[verifier::external_body]
fn system_time_now() -> (now: SystemTime) {
    SystemTime::now()
}

/// `SystemTime::duration_since` the Unix epoch, in whole seconds; `None`
/// where the reading lies before the epoch.
#[verifier::external_body]
fn seconds_since_epoch(reading: &SystemTime) -> (seconds: Option<u64>) {
    reading.duration_since(UNIX_EPOCH).ok().map(|elapsed| elapsed.as_secs())
}

/// The time in seconds since the Unix epoch; 0 where the system clock is
/// set to a time before it.
pub fn unix_seconds() -> (seconds: u64) {
    let reading = system_time_now();
    seconds_or_epoch(seconds_since_epoch(&reading))
}

/// The time that a measurement of the clock stands for: the seconds that
/// it gave, and the epoch itself where it gave none.
pub open spec fn time_of(measured: Option<u64>) -> u64 {
    match measured {
        Some(seconds) => seconds,
        None => 0,
    }
}

/// The time that a measurement of the clock stands for. A clock that is
/// set to a time before the epoch measures nothing, and counts as standing
/// at the epoch.
pub fn seconds_or_epoch(measured: Option<u64>) -> (seconds: u64)
    ensures
        seconds == time_of(measured),
{
    match measured {
        Some(seconds) => seconds,
        None => 0,
    }
}

} // verus!
