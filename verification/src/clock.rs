//! The wall clock, read as milliseconds since the Unix epoch.

use vstd::prelude::*;
use std::time::{Duration, SystemTime};

verus! {

/// `std::time::SystemTime`, a reading of the system clock. Nothing is known
/// of a value of it.
#[verifier::external_type_specification]
#[verifier::external_body]
pub struct ExSystemTime(std::time::SystemTime);

/// `SystemTime::now`: the current reading of the system clock. Nothing is
/// promised of it: two readings may differ in either direction.
#[verifier::external_body]
fn system_now() -> SystemTime {
    SystemTime::now()
}

/// `SystemTime::duration_since` with the Unix epoch: the time that has
/// passed since the epoch, or nothing if the clock is set before it.
#[verifier::external_body]
fn since_epoch(t: &SystemTime) -> Option<Duration> {
    t.duration_since(std::time::UNIX_EPOCH).ok()
}

/// `Duration::as_millis`: the whole milliseconds in a duration.
#[verifier::external_body]
fn whole_millis(d: &Duration) -> u128 {
    d.as_millis()
}

/// The current instant: what `instant_from` makes of the clock's reading.
/// Nothing is promised of it, since nothing is known of the reading.
pub fn now_millis() -> u64 {
    // What the clock shows is not known before it is read, and two readings
    // need not agree. All that is decided here is decided by `instant_from`,
    // for every reading there can be.
    let t = system_now();
    let elapsed = match since_epoch(&t) {
        Some(d) => {
            let ms = whole_millis(&d);
            Some(ms)
        },
        None => None,
    };
    instant_from(elapsed)
}

/// The instant that a reading of the clock stands for. The reading is the
/// whole milliseconds since the epoch, or nothing if the clock is set before
/// the epoch. A clock before the epoch reads as 0; one beyond what 64 bits
/// hold reads as the largest instant.
pub open spec fn instant_of(elapsed: Option<u128>) -> u64 {
    match elapsed {
        Some(ms) => if ms > u64::MAX {
            u64::MAX
        } else {
            ms as u64
        },
        None => 0,
    }
}

/// Turns a reading of the clock into an instant.
pub fn instant_from(elapsed: Option<u128>) -> (instant: u64)
    ensures
        instant == instant_of(elapsed),
{
    match elapsed {
        Some(ms) => if ms > 0xffff_ffff_ffff_ffffu128 {
            u64::MAX
        } else {
            ms as u64
        },
        None => 0,
    }
}

} // verus!
