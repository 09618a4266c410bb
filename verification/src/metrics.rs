//! The metric store: cached ratio and key-metric slices for one symbol,
//! with the same plan / install split as the statement store.  The
//! trailing-twelve-month slices hold at most one record and are refetched
//! only when empty and never attempted, or when the quarterly reference
//! is calendar-stale.

use vstd::prelude::*;

use crate::helper_structs::{
    FetchStats, KeyMetrics, KeyMetricsTTM, Ratios, RatiosTTM, RefSliceInfo, StatementSlice,
    StockInfo, TimePeriod,
};
use crate::utils::{
    needs_update_based_on_time, spec_needs_length_fetch, spec_needs_update, spec_pull_stats,
    update_pull_stats,
};

verus! {

/// Per-symbol cache of ratio and key-metric slices, most recent period
/// first.
#[derive(Clone, Debug, PartialEq)]
pub struct Metrics {
    pub annual_ratios: StatementSlice<Ratios>,
    pub quarter_ratios: StatementSlice<Ratios>,
    pub ttm_ratios: StatementSlice<RatiosTTM>,
    pub annual_key_metrics: StatementSlice<KeyMetrics>,
    pub quarter_key_metrics: StatementSlice<KeyMetrics>,
    pub ttm_key_metrics: StatementSlice<KeyMetricsTTM>,
}

impl StockInfo for Metrics {
    /// The annual ratio slice is the store's annual calendar reference.
    open spec fn annual_info(&self) -> RefSliceInfo {
        RefSliceInfo {
            len: self.annual_ratios.items@.len(),
            recent_date: if self.annual_ratios.items@.len() > 0 {
                self.annual_ratios.items@[0].date
            } else {
                None
            },
            last_pull: self.annual_ratios.stats.last_pull_time,
        }
    }

    /// The quarterly ratio slice is the store's quarterly calendar
    /// reference.
    open spec fn quarter_info(&self) -> RefSliceInfo {
        RefSliceInfo {
            len: self.quarter_ratios.items@.len(),
            recent_date: if self.quarter_ratios.items@.len() > 0 {
                self.quarter_ratios.items@[0].date
            } else {
                None
            },
            last_pull: self.quarter_ratios.stats.last_pull_time,
        }
    }

    fn length_of_annual_statement(&self) -> (n: usize) {
        self.annual_ratios.items.len()
    }

    fn length_of_quarter_statement(&self) -> (n: usize) {
        self.quarter_ratios.items.len()
    }

    fn recent_annual_date(&self) -> (d: Option<i64>) {
        if self.annual_ratios.items.len() > 0 {
            self.annual_ratios.items[0].date
        } else {
            None
        }
    }

    fn recent_quarter_date(&self) -> (d: Option<i64>) {
        if self.quarter_ratios.items.len() > 0 {
            self.quarter_ratios.items[0].date
        } else {
            None
        }
    }

    fn last_pull_time_annual(&self) -> (d: Option<i64>) {
        self.annual_ratios.stats.last_pull_time
    }

    fn last_pull_time_quarter(&self) -> (d: Option<i64>) {
        self.quarter_ratios.stats.last_pull_time
    }
}

/// Whether a ratio fetch is due for `period` on day `today`.
pub open spec fn spec_needs_ratios_fetch(m: Metrics, period: TimePeriod, today: int) -> bool {
    match period {
        TimePeriod::Annual(v) => spec_needs_length_fetch(
            m.annual_ratios.items@.len(),
            m.annual_ratios.stats.last_pull_length as nat,
            v,
        ) || spec_needs_update(m.annual_info(), m.quarter_info(), period, today),
        TimePeriod::Quarter(v) => spec_needs_length_fetch(
            m.quarter_ratios.items@.len(),
            m.quarter_ratios.stats.last_pull_length as nat,
            v,
        ) || spec_needs_update(m.annual_info(), m.quarter_info(), period, today),
        TimePeriod::TTM() | TimePeriod::NA() => false,
    }
}

/// Whether a key-metric fetch is due for `period` on day `today`.
pub open spec fn spec_needs_key_metrics_fetch(m: Metrics, period: TimePeriod, today: int) -> bool {
    match period {
        TimePeriod::Annual(v) => spec_needs_length_fetch(
            m.annual_key_metrics.items@.len(),
            m.annual_key_metrics.stats.last_pull_length as nat,
            v,
        ) || spec_needs_update(m.annual_info(), m.quarter_info(), period, today),
        TimePeriod::Quarter(v) => spec_needs_length_fetch(
            m.quarter_key_metrics.items@.len(),
            m.quarter_key_metrics.stats.last_pull_length as nat,
            v,
        ) || spec_needs_update(m.annual_info(), m.quarter_info(), period, today),
        TimePeriod::TTM() | TimePeriod::NA() => false,
    }
}

/// Whether the trailing-twelve-month ratio slice must be fetched.
pub open spec fn spec_needs_ratios_ttm_fetch(m: Metrics, today: int) -> bool {
    (m.ttm_ratios.items@.len() == 0 && 1 > m.ttm_ratios.stats.last_pull_length)
        || spec_needs_update(m.annual_info(), m.quarter_info(), TimePeriod::TTM(), today)
}

/// Whether the trailing-twelve-month key-metric slice must be fetched.
pub open spec fn spec_needs_key_metrics_ttm_fetch(m: Metrics, today: int) -> bool {
    (m.ttm_key_metrics.items@.len() == 0 && 1 > m.ttm_key_metrics.stats.last_pull_length)
        || spec_needs_update(m.annual_info(), m.quarter_info(), TimePeriod::TTM(), today)
}

/// A store as `Metrics::new` builds it: every slice empty, never
/// fetched.
pub open spec fn metrics_empty(m: Metrics) -> bool {
    &&& m.annual_ratios.items@.len() == 0
    &&& m.quarter_ratios.items@.len() == 0
    &&& m.ttm_ratios.items@.len() == 0
    &&& m.annual_key_metrics.items@.len() == 0
    &&& m.quarter_key_metrics.items@.len() == 0
    &&& m.ttm_key_metrics.items@.len() == 0
    &&& m.annual_ratios.stats == (FetchStats { last_pull_length: 0, last_pull_time: None })
    &&& m.quarter_ratios.stats == (FetchStats { last_pull_length: 0, last_pull_time: None })
    &&& m.ttm_ratios.stats == (FetchStats { last_pull_length: 0, last_pull_time: None })
    &&& m.annual_key_metrics.stats == (FetchStats { last_pull_length: 0, last_pull_time: None })
    &&& m.quarter_key_metrics.stats == (FetchStats { last_pull_length: 0, last_pull_time: None })
    &&& m.ttm_key_metrics.stats == (FetchStats { last_pull_length: 0, last_pull_time: None })
}

impl Metrics {
    /// An empty store: every slice empty, never fetched.
    pub fn new() -> (r: Self)
        ensures
            metrics_empty(r),
    {
        Self {
            annual_ratios: StatementSlice { items: Vec::new(), stats: FetchStats::new(0) },
            quarter_ratios: StatementSlice { items: Vec::new(), stats: FetchStats::new(0) },
            ttm_ratios: StatementSlice { items: Vec::new(), stats: FetchStats::new(0) },
            annual_key_metrics: StatementSlice { items: Vec::new(), stats: FetchStats::new(0) },
            quarter_key_metrics: StatementSlice { items: Vec::new(), stats: FetchStats::new(0) },
            ttm_key_metrics: StatementSlice { items: Vec::new(), stats: FetchStats::new(0) },
        }
    }

    /// Decides whether a ratio fetch is due for `period` on day `today`.
    pub fn needs_ratios_fetch(&self, period: &TimePeriod, today: i64) -> (r: bool)
        ensures
            r == spec_needs_ratios_fetch(*self, *period, today as int),
    {
        let should_update = needs_update_based_on_time(self, period, today);
        match period {
            TimePeriod::Annual(v) => (self.annual_ratios.items.len() < *v as usize
                && *v as usize > self.annual_ratios.stats.last_pull_length) || should_update,
            TimePeriod::Quarter(v) => (self.quarter_ratios.items.len() < *v as usize
                && *v as usize > self.quarter_ratios.stats.last_pull_length) || should_update,
            TimePeriod::TTM() | TimePeriod::NA() => false,
        }
    }

    /// Decides whether a key-metric fetch is due for `period` on day
    /// `today`.
    pub fn needs_key_metrics_fetch(&self, period: &TimePeriod, today: i64) -> (r: bool)
        ensures
            r == spec_needs_key_metrics_fetch(*self, *period, today as int),
    {
        let should_update = needs_update_based_on_time(self, period, today);
        match period {
            TimePeriod::Annual(v) => (self.annual_key_metrics.items.len() < *v as usize
                && *v as usize > self.annual_key_metrics.stats.last_pull_length) || should_update,
            TimePeriod::Quarter(v) => (self.quarter_key_metrics.items.len() < *v as usize
                && *v as usize > self.quarter_key_metrics.stats.last_pull_length) || should_update,
            TimePeriod::TTM() | TimePeriod::NA() => false,
        }
    }

    /// Decides whether the trailing-twelve-month ratio slice must be
    /// fetched on day `today`.
    pub fn needs_ratios_ttm_fetch(&self, today: i64) -> (r: bool)
        ensures
            r == spec_needs_ratios_ttm_fetch(*self, today as int),
    {
        let should_update = needs_update_based_on_time(self, &TimePeriod::TTM(), today);
        (self.ttm_ratios.items.len() == 0 && 1 > self.ttm_ratios.stats.last_pull_length)
            || should_update
    }

    /// Decides whether the trailing-twelve-month key-metric slice must be
    /// fetched on day `today`.
    pub fn needs_key_metrics_ttm_fetch(&self, today: i64) -> (r: bool)
        ensures
            r == spec_needs_key_metrics_ttm_fetch(*self, today as int),
    {
        let should_update = needs_update_based_on_time(self, &TimePeriod::TTM(), today);
        (self.ttm_key_metrics.items.len() == 0 && 1 > self.ttm_key_metrics.stats.last_pull_length)
            || should_update
    }

    /// Replaces the ratio slot `period` selects with `data`, recording
    /// the attempt.
    pub fn install_ratios(&mut self, period: &TimePeriod, today: i64, data: Vec<Ratios>)
        requires
            matches!(*period, TimePeriod::Annual(_) | TimePeriod::Quarter(_)),
        ensures
            *final(self) == match *period {
                TimePeriod::Annual(_) => Metrics {
                    annual_ratios: StatementSlice {
                        items: data,
                        stats: spec_pull_stats(*period, today as int),
                    },
                    ..*old(self)
                },
                _ => Metrics {
                    quarter_ratios: StatementSlice {
                        items: data,
                        stats: spec_pull_stats(*period, today as int),
                    },
                    ..*old(self)
                },
            },
    {
        let stats = update_pull_stats(period, today);
        match period {
            TimePeriod::Annual(_) => {
                self.annual_ratios = StatementSlice { items: data, stats };
            },
            _ => {
                self.quarter_ratios = StatementSlice { items: data, stats };
            },
        }
    }

    /// Replaces the key-metric slot `period` selects with `data`,
    /// recording the attempt.
    pub fn install_key_metrics(&mut self, period: &TimePeriod, today: i64, data: Vec<KeyMetrics>)
        requires
            matches!(*period, TimePeriod::Annual(_) | TimePeriod::Quarter(_)),
        ensures
            *final(self) == match *period {
                TimePeriod::Annual(_) => Metrics {
                    annual_key_metrics: StatementSlice {
                        items: data,
                        stats: spec_pull_stats(*period, today as int),
                    },
                    ..*old(self)
                },
                _ => Metrics {
                    quarter_key_metrics: StatementSlice {
                        items: data,
                        stats: spec_pull_stats(*period, today as int),
                    },
                    ..*old(self)
                },
            },
    {
        let stats = update_pull_stats(period, today);
        match period {
            TimePeriod::Annual(_) => {
                self.annual_key_metrics = StatementSlice { items: data, stats };
            },
            _ => {
                self.quarter_key_metrics = StatementSlice { items: data, stats };
            },
        }
    }

    /// Replaces the trailing-twelve-month ratio slice with `data`,
    /// recording the attempt at horizon 1.
    pub fn install_ratios_ttm(&mut self, today: i64, data: Vec<RatiosTTM>)
        ensures
            *final(self) == (Metrics {
                ttm_ratios: StatementSlice {
                    items: data,
                    stats: spec_pull_stats(TimePeriod::TTM(), today as int),
                },
                ..*old(self)
            }),
    {
        let stats = update_pull_stats(&TimePeriod::TTM(), today);
        self.ttm_ratios = StatementSlice { items: data, stats };
    }

    /// Replaces the trailing-twelve-month key-metric slice with `data`,
    /// recording the attempt at horizon 1.
    pub fn install_key_metrics_ttm(&mut self, today: i64, data: Vec<KeyMetricsTTM>)
        ensures
            *final(self) == (Metrics {
                ttm_key_metrics: StatementSlice {
                    items: data,
                    stats: spec_pull_stats(TimePeriod::TTM(), today as int),
                },
                ..*old(self)
            }),
    {
        let stats = update_pull_stats(&TimePeriod::TTM(), today);
        self.ttm_key_metrics = StatementSlice { items: data, stats };
    }
}

} // verus!
