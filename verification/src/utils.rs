//! The staleness policy: pure rules deciding when a cached slice must be
//! refreshed, and the provenance recorded on every fetch attempt.
//!
//! A slice is refreshed for two independent reasons:
//! - calendar: the most recent cached period has aged past its window
//!   (355 days for annual data, 80 for quarterly and TTM) and at least one
//!   day has passed since the last pull attempt;
//! - length: the slice is shorter than the requested horizon and the
//!   horizon exceeds the one last requested, so a longer run might exist.
//!
//! The second clause of the length rule is what stops retry storms: once a
//! horizon was attempted, the same horizon is never fetched again the same
//! day, however short the provider's answer was.

use vstd::prelude::*;

use crate::helper_structs::{FetchStats, RefSliceInfo, StockInfo, TimePeriod};

verus! {

/// Days added to an annual period's end date before it counts as aged.
pub const ANNUAL_WINDOW_DAYS: i64 = 355;

/// Days added to a quarterly period's end date before it counts as aged.
pub const QUARTER_WINDOW_DAYS: i64 = 80;

/// Calendar staleness of one reference slice: non-empty, its most recent
/// period older than `window` days, and at least one day since the last
/// pull attempt (a slice never pulled counts as pulled long ago).
pub open spec fn spec_calendar_stale(info: RefSliceInfo, window: int, today: int) -> bool {
    &&& info.len > 0
    &&& match info.recent_date {
        Some(d) => d + window < today,
        None => false,
    }
    &&& match info.last_pull {
        Some(p) => today > p,
        None => true,
    }
}

/// The calendar rule for a whole store: annual horizons go by the annual
/// reference slice, quarterly and TTM horizons by the quarterly one.
pub open spec fn spec_needs_update(
    annual: RefSliceInfo,
    quarter: RefSliceInfo,
    period: TimePeriod,
    today: int,
) -> bool {
    match period {
        TimePeriod::Annual(_) => spec_calendar_stale(annual, ANNUAL_WINDOW_DAYS as int, today),
        TimePeriod::Quarter(_) | TimePeriod::TTM() => spec_calendar_stale(
            quarter,
            QUARTER_WINDOW_DAYS as int,
            today,
        ),
        TimePeriod::NA() => false,
    }
}

/// The length rule: the cached run is shorter than the requested horizon
/// and the horizon is larger than the one last attempted.
pub open spec fn spec_needs_length_fetch(len: nat, last_pull_length: nat, horizon: u8) -> bool {
    len < horizon && horizon > last_pull_length
}

/// Whether a store's cached data is calendar-stale for `period` on day
/// `today`.
pub fn needs_update_based_on_time<T: StockInfo>(statements: &T, period: &TimePeriod, today: i64) -> (r:
    bool)
    ensures
        r == spec_needs_update(statements.annual_info(), statements.quarter_info(), *period, today as int),
{
    match period {
        TimePeriod::Annual(_v) => {
            if statements.length_of_annual_statement() != 0 {
                let aged = match statements.recent_annual_date() {
                    Some(d) => (d as i128) + (ANNUAL_WINDOW_DAYS as i128) < (today as i128),
                    None => false,
                };
                let pulled_before_today = match statements.last_pull_time_annual() {
                    Some(p) => (today as i128) > (p as i128),
                    None => true,
                };
                aged && pulled_before_today
            } else {
                false
            }
        },
        TimePeriod::Quarter(_) | TimePeriod::TTM() => {
            if statements.length_of_quarter_statement() != 0 {
                let aged = match statements.recent_quarter_date() {
                    Some(d) => (d as i128) + (QUARTER_WINDOW_DAYS as i128) < (today as i128),
                    None => false,
                };
                let pulled_before_today = match statements.last_pull_time_quarter() {
                    Some(p) => (today as i128) > (p as i128),
                    None => true,
                };
                aged && pulled_before_today
            } else {
                false
            }
        },
        TimePeriod::NA() => false,
    }
}

/// The provenance recorded for a fetch attempted on day `today` at
/// `period`'s horizon.  Horizons without a length (TTM, NA) record 1.
pub open spec fn spec_pull_stats(period: TimePeriod, today: int) -> FetchStats {
    match period {
        TimePeriod::Annual(v) | TimePeriod::Quarter(v) => FetchStats {
            last_pull_length: v as usize,
            last_pull_time: Some(today as i64),
        },
        TimePeriod::TTM() | TimePeriod::NA() => FetchStats {
            last_pull_length: 1,
            last_pull_time: Some(today as i64),
        },
    }
}

/// Builds the provenance for a fetch attempted today.
pub fn update_pull_stats(period: &TimePeriod, today: i64) -> (r: FetchStats)
    ensures
        r == spec_pull_stats(*period, today as int),
{
    match period {
        TimePeriod::Annual(v) | TimePeriod::Quarter(v) => FetchStats {
            last_pull_length: *v as usize,
            last_pull_time: Some(today),
        },
        _ => FetchStats { last_pull_length: 1, last_pull_time: Some(today) },
    }
}


/// Milliseconds between ticks of the pacing interval that spaces remote
/// calls.
pub const FETCH_INTERVAL_MS: u64 = 200;

/// Ticks of the pacing interval awaited before each remote call, so two
/// calls are at least two ticks apart.
pub const FETCH_INTERVAL_TICKS: u64 = 2;

/// The process-wide fetch throttle's counters: one sequence number per
/// remote call attempted, and one per failed call, kept for
/// observability.  The caller sleeps the pacing interval between calls;
/// the counters only record what happened.
#[derive(Clone, Copy, Debug, PartialEq, Eq, Structural)]
pub struct FetchThrottle {
    pub attempts: u64,
    pub errors: u64,
}

impl FetchThrottle {
    /// A throttle that has seen no calls.
    pub fn new() -> (r: Self)
        ensures
            r.attempts == 0,
            r.errors == 0,
    {
        Self { attempts: 0, errors: 0 }
    }

    /// Counts one attempted remote call; the count saturates rather than
    /// wrap.
    pub fn record_attempt(&mut self)
        ensures
            final(self).attempts as int == if old(self).attempts < u64::MAX {
                old(self).attempts + 1
            } else {
                old(self).attempts as int
            },
            final(self).errors == old(self).errors,
    {
        if self.attempts < u64::MAX {
            self.attempts = self.attempts + 1;
        }
    }

    /// Counts one failed remote call; the count saturates rather than
    /// wrap.
    pub fn record_error(&mut self)
        ensures
            final(self).errors as int == if old(self).errors < u64::MAX {
                old(self).errors + 1
            } else {
                old(self).errors as int
            },
            final(self).attempts == old(self).attempts,
    {
        if self.errors < u64::MAX {
            self.errors = self.errors + 1;
        }
    }
}

} // verus!
