//! The boundary to `std::time`. What stands in this file about `Duration` and
//! `SystemTime` is believed, not proved.

use vstd::prelude::*;
use std::time::{Duration, SystemTime, UNIX_EPOCH};

verus! {

/// `std::time::SystemTime`, a reading of the system clock. Nothing is known of what a
/// value holds.
#[verifier::external_type_specification]
#[verifier::external_body]
pub struct ExSystemTime(SystemTime);

/// The length of a `Duration` in nanoseconds, as `Duration::as_nanos` returns it.
pub uninterp spec fn duration_nanos(d: Duration) -> u128;

/// `Duration::as_nanos` returns the total number of nanoseconds in the duration. That
/// number depends on the duration alone, and `duration_nanos` is the name for it.
pub assume_specification[ Duration::as_nanos ](d: &Duration) -> (nanos: u128)
    ensures
        nanos == duration_nanos(*d),
;

/// Reads the system clock with `SystemTime::now`. Two readings may differ in either
/// direction, so nothing is promised of the result.
#[verifier::external_body]
fn system_now() -> (t: SystemTime)
{
    SystemTime::now()
}

/// The time from the Unix epoch to `t`, by `SystemTime::duration_since`, which fails
/// for a `t` before the epoch; that failure becomes `None`. Nothing is promised of the
/// result.
#[verifier::external_body]
fn since_epoch(t: &SystemTime) -> (elapsed: Option<Duration>)
{
    match t.duration_since(UNIX_EPOCH) {
        Ok(d) => Some(d),
        Err(_) => None,
    }
}

/// The instant, in nanoseconds since the Unix epoch, that lies `elapsed` after the
/// epoch. `None` stands for a clock that is set before the epoch, which reads as the
/// epoch itself.
pub open spec fn instant(elapsed: Option<Duration>) -> u128 {
    match elapsed {
        Some(d) => duration_nanos(d),
        None => 0,
    }
}

/// The instant that lies `elapsed` after the epoch.
pub fn instant_of(elapsed: Option<Duration>) -> (nanos: u128)
    ensures
        nanos == instant(elapsed),
{
    match elapsed {
        Some(d) => d.as_nanos(),
        None => 0,
    }
}

/// The current reading of the system clock, in nanoseconds since the Unix epoch: the
/// instant that lies after the epoch by the time that the clock says has passed since
/// then. How much time that is, the clock alone decides.
pub fn now() -> (nanos: u128)
    ensures
        exists|elapsed: Option<Duration>| nanos == #[trigger] instant(elapsed),
{
    let t = system_now();
    let elapsed = since_epoch(&t);
    instant_of(elapsed)
}

} // verus!
