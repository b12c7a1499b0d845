//! Wall-clock access and calendar arithmetic.
//!
//! The engine works on plain Unix timestamps (seconds) and day numbers
//! (days since the Unix epoch, shifted by the schedule's fixed time-zone
//! offset). The one call that asks the machine for the time is trusted;
//! everything derived from a timestamp is verified arithmetic.

use vstd::prelude::*;

verus! {

/// Seconds in one calendar day.
pub const SECONDS_PER_DAY: u64 = 86400;

/// Largest timestamp [`now_seconds`] can report, the largest signed 64-bit
/// value.
pub const MAX_TIMESTAMP: u64 = 0x7fff_ffff_ffff_ffff;

/// Relies on chrono::Utc::now, whose timestamp() is the number of
/// non-leap seconds since the Unix epoch. Nothing can be promised of the
/// value itself.
#[verifier::external_body]
fn unix_now_signed() -> (r: i64) {
    chrono::Utc::now().timestamp()
}

/// The current Unix time in seconds, clamped below at the epoch.
pub fn now_seconds() -> (r: u64)
    ensures
        r <= MAX_TIMESTAMP,
{
    let t = unix_now_signed();
    if t < 0 {
        0
    } else {
        t as u64
    }
}

/// The day number a timestamp falls on, once shifted to local time.
pub open spec fn local_day_spec(now: int, tz_offset: int) -> int {
    (now + tz_offset) / (SECONDS_PER_DAY as int)
}

/// The day number of the given timestamp shifted by the time-zone offset.
pub fn day_of_timestamp(now: u64, tz_offset: u64) -> (r: u64)
    requires
        now <= MAX_TIMESTAMP,
        tz_offset < SECONDS_PER_DAY,
    ensures
        r == local_day_spec(now as int, tz_offset as int),
{
    (now + tz_offset) / SECONDS_PER_DAY
}

/// The second of its local day a timestamp falls on.
pub fn seconds_of_day(now: u64, tz_offset: u64) -> (r: u64)
    requires
        now <= MAX_TIMESTAMP,
        tz_offset < SECONDS_PER_DAY,
    ensures
        r == (now + tz_offset) % (SECONDS_PER_DAY as int),
        r < SECONDS_PER_DAY,
{
    (now + tz_offset) % SECONDS_PER_DAY
}

/// How long to sleep from the given second of the day until the next local
/// midnight: at least one second, at most a full day.
pub fn seconds_until_midnight(second_of_day: u64) -> (r: u64)
    requires
        second_of_day < SECONDS_PER_DAY,
    ensures
        r == SECONDS_PER_DAY - second_of_day,
        1 <= r <= SECONDS_PER_DAY,
{
    SECONDS_PER_DAY - second_of_day
}

/// How long to sleep from now until the next local midnight, for the
/// midnight-reset timer.
pub fn seconds_until_reset(tz_offset: u64) -> (r: u64)
    requires
        tz_offset < SECONDS_PER_DAY,
    ensures
        1 <= r <= SECONDS_PER_DAY,
{
    let now = now_seconds();
    let sod = seconds_of_day(now, tz_offset);
    seconds_until_midnight(sod)
}

} // verus!
