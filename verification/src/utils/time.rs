//! Session boundaries of the day that holds a timestamp.

use crate::config::MarketHours;
use crate::fixed::{clamp_i64, rem_floor, saturate};
use crate::indicators::time::TimeOfDay;
use vstd::prelude::*;

verus! {

pub const NANOS_PER_SECOND: i64 = 1_000_000_000;

pub const NANOS_PER_MINUTE: i64 = 60_000_000_000;

pub const NANOS_PER_HOUR: i64 = 3_600_000_000_000;

pub const NANOS_PER_DAY: i64 = 86_400_000_000_000;

/// The first nanosecond of the UTC day that holds `timestamp`.
pub open spec fn day_start(timestamp: int) -> int {
    timestamp - timestamp % (NANOS_PER_DAY as int)
}

/// The first nanosecond of the UTC hour that holds `timestamp`.
pub open spec fn hour_start(timestamp: int) -> int {
    timestamp - timestamp % (NANOS_PER_HOUR as int)
}

/// The moment `time` on the UTC day that holds `timestamp`.
pub open spec fn spec_apply_time(timestamp: i64, time: TimeOfDay) -> i64 {
    clamp_i64(day_start(timestamp as int) + time.spec_seconds() * NANOS_PER_SECOND)
}

/// The first nanosecond of the UTC day that holds `timestamp`, as a wide
/// integer: the day of the earliest timestamps starts before `i64::MIN`.
pub fn start_of_day(timestamp: i64) -> (r: i128)
    ensures
        r == day_start(timestamp as int),
{
    let rem: i64 = rem_floor(timestamp, NANOS_PER_DAY);
    timestamp as i128 - rem as i128
}

/// The first nanosecond of the UTC hour that holds `timestamp`, as a wide
/// integer.
pub fn start_of_hour(timestamp: i64) -> (r: i128)
    ensures
        r == hour_start(timestamp as int),
{
    let rem: i64 = rem_floor(timestamp, NANOS_PER_HOUR);
    timestamp as i128 - rem as i128
}

/// Replaces the time of day of `timestamp` by `time`, keeping the UTC date.
pub fn apply_time_to_timestamp(timestamp: i64, time: TimeOfDay) -> (r: i64)
    ensures
        r == spec_apply_time(timestamp, time),
{
    let start: i128 = start_of_day(timestamp);
    let offset: i128 = time.seconds() as i128 * NANOS_PER_SECOND as i128;
    saturate(start + offset)
}

/// Market close on the day of `timestamp`.
pub fn get_mc_timestamp(timestamp: i64, market_hours: &MarketHours) -> (r: i64)
    ensures
        r == spec_apply_time(timestamp, market_hours.market_close),
{
    apply_time_to_timestamp(timestamp, market_hours.market_close)
}

/// Market open on the day of `timestamp`.
pub fn get_mo_timestamp(timestamp: i64, market_hours: &MarketHours) -> (r: i64)
    ensures
        r == spec_apply_time(timestamp, market_hours.market_open),
{
    apply_time_to_timestamp(timestamp, market_hours.market_open)
}

/// Start of the pre-market session on the day of `timestamp`.
pub fn get_pmo_timestamp(timestamp: i64, market_hours: &MarketHours) -> (r: i64)
    ensures
        r == spec_apply_time(timestamp, market_hours.premarket_open),
{
    apply_time_to_timestamp(timestamp, market_hours.premarket_open)
}

/// End of the post-market session on the day of `timestamp`.
pub fn get_pmc_timestamp(timestamp: i64, market_hours: &MarketHours) -> (r: i64)
    ensures
        r == spec_apply_time(timestamp, market_hours.postmarket_close),
{
    apply_time_to_timestamp(timestamp, market_hours.postmarket_close)
}

} // verus!
