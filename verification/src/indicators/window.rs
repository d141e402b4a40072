//! Look-back windows: a count of bars, or a duration.

use crate::config::MarketHours;
use crate::fixed::{clamp_i64, saturate};
use crate::indicators::time::TimeOfDay;
use crate::utils::time::{
    day_start, hour_start, start_of_day, start_of_hour, NANOS_PER_DAY, NANOS_PER_HOUR,
    NANOS_PER_MINUTE, NANOS_PER_SECOND,
};
use vstd::prelude::*;

verus! {

/// A look-back scope for indicators.
#[derive(Debug, Clone, Copy, PartialEq, Eq, Structural)]
pub enum Window {
    /// Number of minutes of data to look back.
    Minutes(i64),
    /// Number of hours of data to look back.
    Hours(i64),
    /// Number of trading days to look back.
    Days(i64),
    /// Raw number of bars to look back.
    Bars(usize),
}

/// A window with optional rounding to session boundaries.
#[derive(Debug, Clone, Copy, PartialEq, Eq, Structural)]
pub struct WindowConfig {
    pub window: Window,
    pub round: bool,
}

/// Where the day of a rounded day-window starts: the session's opening time on
/// the UTC day of `current_time`, or midnight if that time is not a real time
/// of day.
pub open spec fn session_day_start(current_time: i64, market_hours: MarketHours) -> int {
    let open = if market_hours.include_premarket {
        market_hours.premarket_open
    } else {
        market_hours.market_open
    };
    if open.spec_is_valid() {
        day_start(current_time as int) + open.spec_seconds() * NANOS_PER_SECOND
    } else {
        day_start(current_time as int)
    }
}

impl Window {
    /// The length of a duration window in nanoseconds; `None` for a count of
    /// bars.
    pub open spec fn spec_duration(&self) -> Option<int> {
        match *self {
            Window::Minutes(m) => Some(m * NANOS_PER_MINUTE),
            Window::Hours(h) => Some(h * NANOS_PER_HOUR),
            Window::Days(d) => Some(d * NANOS_PER_DAY),
            Window::Bars(_) => None,
        }
    }

    /// The number of bars of a count window; `None` for a duration.
    pub open spec fn spec_bars(&self) -> Option<usize> {
        match *self {
            Window::Bars(n) => Some(n),
            _ => None,
        }
    }

    /// Whether `check` lies in `[reference - duration, reference]`. A count
    /// window contains no timestamp.
    pub open spec fn spec_contains(&self, reference: i64, check: i64) -> bool {
        match self.spec_duration() {
            Some(d) => reference - d <= check <= reference,
            None => false,
        }
    }

    /// The start of the window that ends at `current_time`, without rounding.
    pub open spec fn spec_start_time(&self, current_time: i64) -> i64 {
        match self.spec_duration() {
            Some(d) => clamp_i64(current_time - d),
            None => current_time,
        }
    }

    /// The length of the window in nanoseconds, for duration windows.
    pub fn to_duration(&self) -> (r: Option<i128>)
        ensures
            match self.spec_duration() {
                Some(d) => r == Some(d as i128),
                None => r.is_none(),
            },
    {
        match self {
            Window::Minutes(m) => {
                assert(i128::MIN <= *m * NANOS_PER_MINUTE <= i128::MAX) by (nonlinear_arith)
                    requires
                        i64::MIN <= *m <= i64::MAX,
                        NANOS_PER_MINUTE == 60_000_000_000,
                ;
                Some(*m as i128 * NANOS_PER_MINUTE as i128)
            },
            Window::Hours(h) => {
                assert(i128::MIN <= *h * NANOS_PER_HOUR <= i128::MAX) by (nonlinear_arith)
                    requires
                        i64::MIN <= *h <= i64::MAX,
                        NANOS_PER_HOUR == 3_600_000_000_000,
                ;
                Some(*h as i128 * NANOS_PER_HOUR as i128)
            },
            Window::Days(d) => {
                assert(i128::MIN <= *d * NANOS_PER_DAY <= i128::MAX) by (nonlinear_arith)
                    requires
                        i64::MIN <= *d <= i64::MAX,
                        NANOS_PER_DAY == 86_400_000_000_000,
                ;
                Some(*d as i128 * NANOS_PER_DAY as i128)
            },
            Window::Bars(_) => None,
        }
    }

    /// The number of bars if this is a count window.
    pub fn to_bars(&self) -> (r: Option<usize>)
        ensures
            r == self.spec_bars(),
    {
        match self {
            Window::Bars(n) => Some(*n),
            _ => None,
        }
    }

    /// Whether a timestamp falls within this window ending at the reference
    /// time.
    pub fn contains(&self, reference_timestamp: i64, check_timestamp: i64) -> (r: bool)
        ensures
            r == self.spec_contains(reference_timestamp, check_timestamp),
    {
        match self.to_duration() {
            Some(duration) => {
                proof {
                    self.lemma_duration_bound();
                }
                let cutoff: i128 = reference_timestamp as i128 - duration;
                check_timestamp as i128 >= cutoff && check_timestamp <= reference_timestamp
            },
            None => false,
        }
    }

    /// A duration is at most `i64::MAX` days long in either direction.
    pub proof fn lemma_duration_bound(&self)
        ensures
            match self.spec_duration() {
                Some(d) => -0x8000_0000_0000_0000 * 86_400_000_000_000 <= d
                    <= 0x8000_0000_0000_0000 * 86_400_000_000_000,
                None => true,
            },
    {
        match *self {
            Window::Minutes(m) => {
                assert(-0x8000_0000_0000_0000 * 86_400_000_000_000 <= m * 60_000_000_000
                    <= 0x8000_0000_0000_0000 * 86_400_000_000_000) by (nonlinear_arith)
                    requires
                        i64::MIN <= m <= i64::MAX,
                ;
            },
            Window::Hours(h) => {
                assert(-0x8000_0000_0000_0000 * 86_400_000_000_000 <= h * 3_600_000_000_000
                    <= 0x8000_0000_0000_0000 * 86_400_000_000_000) by (nonlinear_arith)
                    requires
                        i64::MIN <= h <= i64::MAX,
                ;
            },
            Window::Days(d) => {
                assert(-0x8000_0000_0000_0000 * 86_400_000_000_000 <= d * 86_400_000_000_000
                    <= 0x8000_0000_0000_0000 * 86_400_000_000_000) by (nonlinear_arith)
                    requires
                        i64::MIN <= d <= i64::MAX,
                ;
            },
            Window::Bars(_) => {},
        }
    }

    /// A config with rounding enabled.
    pub fn rounded(self) -> (r: WindowConfig)
        ensures
            r == (WindowConfig { window: self, round: true }),
    {
        WindowConfig { window: self, round: true }
    }

    /// A config with rounding disabled.
    pub fn unrounded(self) -> (r: WindowConfig)
        ensures
            r == (WindowConfig { window: self, round: false }),
    {
        WindowConfig { window: self, round: false }
    }

    /// The start of this window ending at `current_time`, saturating. A count
    /// window has no start in time and gives `current_time` back.
    pub fn get_start_time(&self, current_time: i64) -> (r: i64)
        ensures
            r == self.spec_start_time(current_time),
    {
        match self.to_duration() {
            Some(duration) => {
                proof {
                    self.lemma_duration_bound();
                }
                saturate(current_time as i128 - duration)
            },
            None => current_time,
        }
    }
}

impl WindowConfig {
    /// The start of the window ending at `current_time`.
    ///
    /// Without rounding, and for minutes and bars, this is the plain start. A
    /// rounded window of `h` hours starts `h - 1` hours before the start of
    /// the current hour; a rounded window of `d` days starts `d - 1` days
    /// before the session opens on the current day.
    pub open spec fn spec_start_time(&self, current_time: i64, market_hours: MarketHours) -> i64 {
        if !self.round {
            self.window.spec_start_time(current_time)
        } else {
            match self.window {
                Window::Hours(h) => clamp_i64(
                    hour_start(current_time as int) - (h - 1) * NANOS_PER_HOUR,
                ),
                Window::Days(d) => clamp_i64(
                    session_day_start(current_time, market_hours) - (d - 1) * NANOS_PER_DAY,
                ),
                _ => self.window.spec_start_time(current_time),
            }
        }
    }

    /// The start time for this window config from a given current time.
    pub fn get_start_time(&self, current_time: i64, market_hours: &MarketHours) -> (r: i64)
        ensures
            r == self.spec_start_time(current_time, *market_hours),
    {
        if !self.round {
            return self.window.get_start_time(current_time);
        }
        match self.window {
            Window::Bars(_) | Window::Minutes(_) => self.window.get_start_time(current_time),
            Window::Hours(h) => {
                let rounded: i128 = start_of_hour(current_time);
                assert(-0x8000_0000_0000_0001 * 3_600_000_000_000 <= (h - 1) * NANOS_PER_HOUR
                    <= 0x8000_0000_0000_0000 * 3_600_000_000_000) by (nonlinear_arith)
                    requires
                        i64::MIN <= h <= i64::MAX,
                        NANOS_PER_HOUR == 3_600_000_000_000,
                ;
                saturate(rounded - (h as i128 - 1) * NANOS_PER_HOUR as i128)
            },
            Window::Days(d) => Self::round_to_day_start(current_time, d, market_hours),
        }
    }

    /// Rounds to the session's opening time on the current day, then goes
    /// back `days - 1` days.
    pub fn round_to_day_start(current_time: i64, days: i64, market_hours: &MarketHours) -> (r: i64)
        ensures
            r == clamp_i64(
                session_day_start(current_time, *market_hours) - (days - 1) * NANOS_PER_DAY,
            ),
    {
        let start: i128 = start_of_day(current_time);
        let open: TimeOfDay = if !market_hours.include_premarket {
            market_hours.market_open
        } else {
            market_hours.premarket_open
        };
        let adjusted: i128 = if open.is_valid() {
            start + open.seconds() as i128 * NANOS_PER_SECOND as i128
        } else {
            start
        };
        assert(-0x8000_0000_0000_0001 * 86_400_000_000_000 <= (days - 1) * NANOS_PER_DAY
            <= 0x8000_0000_0000_0000 * 86_400_000_000_000) by (nonlinear_arith)
            requires
                i64::MIN <= days <= i64::MAX,
                NANOS_PER_DAY == 86_400_000_000_000,
        ;
        saturate(adjusted - (days as i128 - 1) * NANOS_PER_DAY as i128)
    }
}

impl From<Window> for WindowConfig {
    fn from(window: Window) -> (r: Self) {
        WindowConfig { window, round: false }
    }
}

impl vstd::std_specs::convert::FromSpecImpl<Window> for WindowConfig {
    open spec fn obeys_from_spec() -> bool {
        true
    }

    open spec fn from_spec(window: Window) -> Self {
        WindowConfig { window, round: false }
    }
}

} // verus!
