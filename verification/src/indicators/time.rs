//! Times of day, and look-back windows whose start can be rounded to clean
//! boundaries.

use crate::config::MarketHours;
use crate::fixed::{clamp_i64, rem_floor, saturate};
use crate::indicators::window::{session_day_start, Window, WindowConfig};
use crate::utils::time::{
    hour_start, start_of_hour, NANOS_PER_DAY, NANOS_PER_HOUR, NANOS_PER_MINUTE,
};
use vstd::prelude::*;

verus! {

/// A look-back scope for indicators.
#[derive(Debug, Clone, Copy, PartialEq, Eq, Structural)]
pub enum TimeWindow {
    /// Number of minutes of data to look back.
    Minutes(i64),
    /// Number of hours of data to look back.
    Hours(i64),
    /// Number of trading days to look back.
    Days(i64),
    /// Raw number of bars to look back.
    Bars(usize),
}

/// The minute of the UTC hour that holds `timestamp`.
pub open spec fn minute_of_hour(timestamp: i64) -> int {
    ((timestamp as int) % (NANOS_PER_HOUR as int)) / (NANOS_PER_MINUTE as int)
}

/// The start of the interval of `minutes` minutes, counted from the full
/// hour, that holds `timestamp`.
pub open spec fn minute_interval_start(timestamp: i64, minutes: i64) -> int
    recommends
        minutes > 0,
{
    hour_start(timestamp as int) + ((minute_of_hour(timestamp) / (minutes as int)) * minutes)
        * NANOS_PER_MINUTE
}

impl TimeWindow {
    /// The same scope as a `Window`.
    pub open spec fn spec_window(&self) -> Window {
        match *self {
            TimeWindow::Minutes(m) => Window::Minutes(m),
            TimeWindow::Hours(h) => Window::Hours(h),
            TimeWindow::Days(d) => Window::Days(d),
            TimeWindow::Bars(n) => Window::Bars(n),
        }
    }

    /// Rounding applies to hours, to days, and to minutes from 10 minutes
    /// up.
    pub open spec fn spec_supports_rounding(&self) -> bool {
        match *self {
            TimeWindow::Minutes(m) => m >= 10,
            TimeWindow::Hours(_) => true,
            TimeWindow::Days(_) => true,
            TimeWindow::Bars(_) => false,
        }
    }

    /// The start of the window that ends at `current_time`.
    ///
    /// Without rounding, or where rounding is not supported, the start lies
    /// one duration before `current_time`. A rounded window of minutes starts
    /// at the start of the current interval of that many minutes; a rounded
    /// window of hours starts at the start of the current hour; a rounded
    /// window of `d` days starts `d - 1` days before the session opens on the
    /// current day.
    pub open spec fn spec_start_time(
        &self,
        current_time: i64,
        round: bool,
        market_hours: MarketHours,
    ) -> i64 {
        if round && self.spec_supports_rounding() {
            match *self {
                TimeWindow::Minutes(m) => clamp_i64(minute_interval_start(current_time, m)),
                TimeWindow::Hours(_) => clamp_i64(hour_start(current_time as int)),
                TimeWindow::Days(d) => clamp_i64(
                    session_day_start(current_time, market_hours) - (d - 1) * NANOS_PER_DAY,
                ),
                TimeWindow::Bars(_) => current_time,
            }
        } else {
            self.spec_window().spec_start_time(current_time)
        }
    }

    /// The same scope as a `Window`.
    pub fn to_window(&self) -> (r: Window)
        ensures
            r == self.spec_window(),
    {
        match self {
            TimeWindow::Minutes(m) => Window::Minutes(*m),
            TimeWindow::Hours(h) => Window::Hours(*h),
            TimeWindow::Days(d) => Window::Days(*d),
            TimeWindow::Bars(n) => Window::Bars(*n),
        }
    }

    /// The length of the window in nanoseconds, for duration windows.
    pub fn to_duration(&self) -> (r: Option<i128>)
        ensures
            match self.spec_window().spec_duration() {
                Some(d) => r == Some(d as i128),
                None => r.is_none(),
            },
    {
        self.to_window().to_duration()
    }

    /// The number of bars if this is a count window.
    pub fn to_bars(&self) -> (r: Option<usize>)
        ensures
            r == self.spec_window().spec_bars(),
    {
        match self {
            TimeWindow::Bars(n) => Some(*n),
            _ => None,
        }
    }

    /// Whether a timestamp falls within this window ending at the reference
    /// time.
    pub fn contains(&self, reference_timestamp: i64, check_timestamp: i64) -> (r: bool)
        ensures
            r == self.spec_window().spec_contains(reference_timestamp, check_timestamp),
    {
        self.to_window().contains(reference_timestamp, check_timestamp)
    }

    /// Whether this window type supports rounding.
    pub fn supports_rounding(&self) -> (r: bool)
        ensures
            r == self.spec_supports_rounding(),
    {
        match self {
            TimeWindow::Minutes(m) => *m >= 10,
            TimeWindow::Hours(_) | TimeWindow::Days(_) => true,
            TimeWindow::Bars(_) => false,
        }
    }

    /// The start time for this window from a given current time. Without
    /// market hours the default market hours apply.
    pub fn get_start_time(
        &self,
        current_time: i64,
        round: bool,
        market_hours: Option<&MarketHours>,
    ) -> (r: i64)
        ensures
            r == self.spec_start_time(
                current_time,
                round,
                match market_hours {
                    Some(mh) => *mh,
                    None => MarketHours::spec_default(),
                },
            ),
    {
        let default_hours: MarketHours = MarketHours::default();
        let mh: &MarketHours = match market_hours {
            Some(mh) => mh,
            None => &default_hours,
        };
        match self {
            TimeWindow::Bars(_) => current_time,
            TimeWindow::Minutes(m) => {
                if round && *m >= 10 {
                    Self::round_to_minute_interval(current_time, *m)
                } else {
                    self.to_window().get_start_time(current_time)
                }
            },
            TimeWindow::Hours(h) => {
                if round {
                    saturate(start_of_hour(current_time))
                } else {
                    self.to_window().get_start_time(current_time)
                }
            },
            TimeWindow::Days(d) => {
                if round {
                    WindowConfig::round_to_day_start(current_time, *d, mh)
                } else {
                    self.to_window().get_start_time(current_time)
                }
            },
        }
    }

    /// Rounds down to the start of an interval of `minutes` minutes.
    pub fn round_to_minute_interval(current_time: i64, minutes: i64) -> (r: i64)
        requires
            minutes > 0,
        ensures
            r == clamp_i64(minute_interval_start(current_time, minutes)),
    {
        let start: i128 = start_of_hour(current_time);
        let in_hour: i64 = rem_floor(current_time, NANOS_PER_HOUR);
        let current_minute: i64 = in_hour / NANOS_PER_MINUTE;
        let intervals: i64 = current_minute / minutes;
        assert(0 <= intervals * minutes <= current_minute) by (nonlinear_arith)
            requires
                intervals == (current_minute as int) / (minutes as int),
                minutes > 0,
                current_minute >= 0,
        ;
        let rounded_minute: i64 = intervals * minutes;
        saturate(start + rounded_minute as i128 * NANOS_PER_MINUTE as i128)
    }
}

/// The start time of a window under the default market hours.
pub fn get_start_time(window: TimeWindow, current_time: i64, round: bool) -> (r: i64)
    ensures
        r == window.spec_start_time(current_time, round, MarketHours::spec_default()),
{
    window.get_start_time(current_time, round, None)
}

/// The start time of a window under the given market hours.
pub fn get_start_time_with_config(
    window: TimeWindow,
    current_time: i64,
    round: bool,
    market_hours: &MarketHours,
) -> (r: i64)
    ensures
        r == window.spec_start_time(current_time, round, *market_hours),
{
    window.get_start_time(current_time, round, Some(market_hours))
}

/// A wall-clock time of day.
#[derive(Debug, Clone, Copy, PartialEq, Eq, Structural)]
pub struct TimeOfDay {
    pub hour: u32,
    pub minute: u32,
    pub second: u32,
}

impl TimeOfDay {
    /// Whether the fields name a real time of day.
    pub open spec fn spec_is_valid(&self) -> bool {
        self.hour < 24 && self.minute < 60 && self.second < 60
    }

    /// Seconds elapsed since midnight.
    pub open spec fn spec_seconds(&self) -> int {
        self.hour * 3600 + self.minute * 60 + self.second
    }

    pub fn new(hour: u32, minute: u32, second: u32) -> (r: Self)
        ensures
            r == (TimeOfDay { hour, minute, second }),
    {
        TimeOfDay { hour, minute, second }
    }

    /// Market open (9:30:00).
    pub fn market_open() -> (r: Self)
        ensures
            r == (TimeOfDay { hour: 9, minute: 30, second: 0 }),
    {
        TimeOfDay { hour: 9, minute: 30, second: 0 }
    }

    /// Market close (16:00:00).
    pub fn market_close() -> (r: Self)
        ensures
            r == (TimeOfDay { hour: 16, minute: 0, second: 0 }),
    {
        TimeOfDay { hour: 16, minute: 0, second: 0 }
    }

    /// Pre-market close (9:29:59).
    pub fn pre_market_close() -> (r: Self)
        ensures
            r == (TimeOfDay { hour: 9, minute: 29, second: 59 }),
    {
        TimeOfDay { hour: 9, minute: 29, second: 59 }
    }

    /// Last minute of trading (15:59:59).
    pub fn last_minute() -> (r: Self)
        ensures
            r == (TimeOfDay { hour: 15, minute: 59, second: 59 }),
    {
        TimeOfDay { hour: 15, minute: 59, second: 59 }
    }

    /// Whether the fields name a real time of day.
    pub fn is_valid(&self) -> (r: bool)
        ensures
            r == self.spec_is_valid(),
    {
        self.hour < 24 && self.minute < 60 && self.second < 60
    }

    /// Seconds elapsed since midnight.
    pub fn seconds(&self) -> (r: i64)
        ensures
            r == self.spec_seconds(),
    {
        self.hour as i64 * 3600 + self.minute as i64 * 60 + self.second as i64
    }
}

} // verus!
