//! Conversion of day offsets to absolute times in seconds since the Unix
//! epoch, and the system clock.

use vstd::prelude::*;

verus! {

/// Seconds in one day.
pub const SECS_PER_DAY: u64 = 86400;

#[verifier::external_type_specification]
#[verifier::external_body]
pub struct ExSystemTime(std::time::SystemTime);

#[verifier::external_type_specification]
#[verifier::external_body]
pub struct ExSystemTimeError(std::time::SystemTimeError);

/// Relies on std::time::SystemTime::now: the current time of the system clock.
#[verifier::external_body]
fn system_now() -> (r: std::time::SystemTime) {
    std::time::SystemTime::now()
}

/// Relies on std::time::SystemTime::duration_since: the time elapsed from the
/// Unix epoch to `t`, or an error where `t` is earlier.
#[verifier::external_body]
fn elapsed_since_unix_epoch(t: std::time::SystemTime) -> (r: Result<
    std::time::Duration,
    std::time::SystemTimeError,
>) {
    t.duration_since(std::time::UNIX_EPOCH)
}

/// Relies on std::time::Duration::as_secs: the whole seconds of `d`.
#[verifier::external_body]
fn whole_seconds(d: std::time::Duration) -> (r: u64) {
    d.as_secs()
}

/// Relies on std::time::Duration::subsec_nanos: the nanoseconds past the
/// whole seconds of `d`, always less than one billion.
#[verifier::external_body]
fn fraction_nanos(d: std::time::Duration) -> (r: u32)
    ensures
        r < NANOS_PER_SEC,
{
    d.subsec_nanos()
}

/// Nanoseconds in one second.
pub const NANOS_PER_SEC: u32 = 1000000000;

/// The time elapsed since the Unix epoch by the system clock, as whole
/// seconds and the nanoseconds past them; `None` when the clock reads earlier
/// than the epoch. Whatever the clock reads, the nanoseconds make less than a
/// second.
pub fn since_the_epoch() -> (r: Option<(u64, u32)>)
    ensures
        r matches Some((_secs, nanos)) ==> nanos < NANOS_PER_SEC,
{
    match elapsed_since_unix_epoch(system_now()) {
        Ok(d) => Some((whole_seconds(d), fraction_nanos(d))),
        Err(_) => None,
    }
}

/// Whole seconds since the Unix epoch by the system clock; `None` when the
/// clock reads earlier than the epoch.
pub fn epoch_seconds_now() -> (r: Option<u64>) {
    match since_the_epoch() {
        Some(t) => Some(t.0),
        None => None,
    }
}

/// Whether `days` days after `now` can be written in seconds as a `u64`.
pub open spec fn fits_after(now: u64, days: Option<u64>) -> bool {
    match days {
        Some(d) => now + d * SECS_PER_DAY <= u64::MAX,
        None => true,
    }
}

/// The time `stamp` days after `now`, in seconds; `None` for no offset.
pub open spec fn days_from_now(stamp: Option<u64>, now: u64) -> Option<u64> {
    match stamp {
        Some(d) => Some((now + d * SECS_PER_DAY) as u64),
        None => None,
    }
}

/// The time `stamp` days after `now`, in seconds since the Unix epoch;
/// `None` for no offset.
pub fn days_from_now_to_jwt_time(stamp: Option<u64>, now: u64) -> (r: Option<u64>)
    requires
        fits_after(now, stamp),
    ensures
        r == days_from_now(stamp, now),
{
    match stamp {
        Some(d) => {
            assert(d * SECS_PER_DAY <= u64::MAX) by (nonlinear_arith)
                requires
                    now + d * SECS_PER_DAY <= u64::MAX,
            ;
            Some(now + d * SECS_PER_DAY)
        },
        None => None,
    }
}

} // verus!
