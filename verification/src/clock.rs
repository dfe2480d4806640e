use vstd::prelude::*;

use std::time::{Duration, SystemTime, SystemTimeError};

verus! {

#[verifier::external_type_specification]
#[verifier::external_body]
pub struct ExSystemTime(SystemTime);

#[verifier::external_type_specification]
#[verifier::external_body]
pub struct ExSystemTimeError(SystemTimeError);

/// How long a job may sit assigned or downloading, unseen, before another
/// machine may take it over: five minutes, in nanoseconds.
pub const TIMEOUT_NANOS: u128 = 300_000_000_000u128;

/// The most nanoseconds a `Duration` holds: `u64::MAX` seconds and
/// 999,999,999 nanoseconds.
pub const MAX_DURATION_NANOS: u128 = 18_446_744_073_709_551_615_999_999_999u128;

/// The current time of the system clock, by `std::time::SystemTime::now`.
/// Nothing is promised of it.
#[verifier::external_body]
fn system_now() -> (t: SystemTime) {
    SystemTime::now()
}

/// `t.duration_since(std::time::UNIX_EPOCH)`: the time since the epoch, or
/// an error when `t` lies before it. Nothing is promised of which.
#[verifier::external_body]
fn since_epoch(t: &SystemTime) -> (r: Result<Duration, SystemTimeError>) {
    t.duration_since(std::time::UNIX_EPOCH)
}

/// `e.duration()`: by how much the time lay before the epoch.
#[verifier::external_body]
fn before_epoch(e: &SystemTimeError) -> (d: Duration) {
    e.duration()
}

/// `d.as_nanos()`: the whole duration in nanoseconds, which for whole seconds
/// held in a `u64` and a sub-second part below one second is at most
/// `MAX_DURATION_NANOS`.
#[verifier::external_body]
fn duration_nanos(d: &Duration) -> (n: u128)
    ensures
        n <= MAX_DURATION_NANOS,
{
    d.as_nanos()
}

/// The system clock in nanoseconds from the Unix epoch, negative before it.
pub fn now_nanos() -> (t: i128)
    ensures
        -MAX_DURATION_NANOS <= t <= MAX_DURATION_NANOS,
{
    let now = system_now();
    match since_epoch(&now) {
        Ok(d) => duration_nanos(&d) as i128,
        Err(e) => {
            let d = before_epoch(&e);
            -(duration_nanos(&d) as i128)
        },
    }
}

/// Time gone by from `seen` to `now`, zero when `seen` lies in the future; a
/// job never seen counts from the epoch.
pub open spec fn elapsed_spec(seen: Option<i128>, now: i128) -> nat {
    let t: i128 = match seen {
        Some(t) => t,
        None => 0i128,
    };
    if now >= t {
        (now - t) as nat
    } else {
        0
    }
}

/// Time gone by from `seen` to `now` (see `elapsed_spec`).
pub fn elapsed_since(seen: Option<i128>, now: i128) -> (d: u128)
    ensures
        d == elapsed_spec(seen, now),
{
    let t: i128 = match seen {
        Some(t) => t,
        None => 0,
    };
    if now < t {
        0
    } else if t >= 0 || now < 0 {
        (now - t) as u128
    } else {
        (now as u128) + ((-(t + 1)) as u128) + 1
    }
}

} // verus!
