//! Shared data model: periods, provenance, statement records and slices.
//!
//! Records mirror the remote provider's statements, reduced to the fields
//! the cache and screener read.  Amounts and ratios are fixed-point
//! integers: a ratio of 1.0 is [`RATIO_SCALE`] units.  A record field is
//! `None` when the provider omitted it.

use vstd::prelude::*;

verus! {

/// Fixed-point scale for ratio-valued fields: 1.0 == `RATIO_SCALE` units.
pub const RATIO_SCALE: i64 = 10_000;

/// Largest magnitude an income-statement amount may take.  Bounding the
/// amounts keeps four-quarter sums inside `i64`.
pub const MAX_AMOUNT: i64 = 1_000_000_000_000_000_000;

/// Which horizon a caller requests for a statement kind.  `Annual(n)` and
/// `Quarter(n)` ask for the `n` most recent yearly or quarterly periods;
/// `TTM` asks for the trailing-twelve-month aggregate; `NA` is for data
/// without a period dimension (profiles).
#[derive(Clone, Copy, Debug, PartialEq, Eq, Structural)]
pub enum TimePeriod {
    Annual(u8),
    Quarter(u8),
    TTM(),
    NA(),
}

/// One tradeable listing from the provider's symbol directory.
#[derive(Clone, Debug, PartialEq)]
pub struct AvailableTraded {
    pub symbol: String,
    pub exchange_short_name: String,
    pub type_: String,
}

/// Provenance of the last fetch attempt into a slice: the horizon that was
/// requested (not the length that came back) and the day of the attempt.
/// Recording the requested horizon is what prevents retry storms when the
/// provider has fewer periods than asked for.
#[derive(Clone, Copy, Debug, PartialEq, Eq, Structural)]
pub struct FetchStats {
    pub last_pull_length: usize,
    pub last_pull_time: Option<i64>,
}

impl FetchStats {
    pub fn new(last_pull_length: usize) -> (r: Self)
        ensures
            r.last_pull_length == last_pull_length,
            r.last_pull_time is None,
    {
        Self { last_pull_length, last_pull_time: None }
    }
}

/// A cached run of records, most recent period first, with the provenance
/// of the fetch that filled it.
#[derive(Clone, Debug, PartialEq)]
pub struct StatementSlice<T> {
    pub items: Vec<T>,
    pub stats: FetchStats,
}

/// Annual, quarterly or synthesized trailing-twelve-month income figures.
/// `date` is the day number of the period end; it is `None` on the
/// synthesized TTM record.  The two `_ratio` fields are not additive
/// across periods and are left `None` when a TTM record is synthesized.
#[derive(Clone, Copy, Debug, PartialEq, Eq, Structural)]
pub struct IncomeStatement {
    pub date: Option<i64>,
    pub revenue: Option<i64>,
    pub cost_of_revenue: Option<i64>,
    pub gross_profit: Option<i64>,
    pub gross_profit_ratio: Option<i64>,
    pub operating_income: Option<i64>,
    pub income_before_tax: Option<i64>,
    pub income_tax_expense: Option<i64>,
    pub net_income: Option<i64>,
    pub net_income_ratio: Option<i64>,
    pub eps: Option<i64>,
}

/// Balance-sheet figures for one period end.
#[derive(Clone, Copy, Debug, PartialEq, Eq, Structural)]
pub struct BalanceSheetStatement {
    pub date: Option<i64>,
    pub total_assets: Option<i64>,
    pub total_liabilities: Option<i64>,
    pub total_stockholders_equity: Option<i64>,
    pub long_term_debt: Option<i64>,
    pub total_debt: Option<i64>,
}

/// Cash-flow figures for one period end.
#[derive(Clone, Copy, Debug, PartialEq, Eq, Structural)]
pub struct CashFlowStatement {
    pub date: Option<i64>,
    pub net_income: Option<i64>,
    pub operating_cash_flow: Option<i64>,
    pub capital_expenditure: Option<i64>,
    pub free_cash_flow: Option<i64>,
}

/// Financial ratios for one period end.
#[derive(Clone, Copy, Debug, PartialEq, Eq, Structural)]
pub struct Ratios {
    pub date: Option<i64>,
    pub current_ratio: Option<i64>,
    pub return_on_assets: Option<i64>,
    pub return_on_equity: Option<i64>,
    pub debt_equity_ratio: Option<i64>,
}

/// Trailing-twelve-month ratios (no period date on the wire).
#[derive(Clone, Copy, Debug, PartialEq, Eq, Structural)]
pub struct RatiosTTM {
    pub pe_ratio_ttm: Option<i64>,
    pub return_on_equity_ttm: Option<i64>,
    pub dividend_yield_ttm: Option<i64>,
}

/// Key metrics for one period end.
#[derive(Clone, Copy, Debug, PartialEq, Eq, Structural)]
pub struct KeyMetrics {
    pub date: Option<i64>,
    pub market_cap: Option<i64>,
    pub pe_ratio: Option<i64>,
    pub earnings_yield: Option<i64>,
    pub roic: Option<i64>,
    pub roe: Option<i64>,
}

/// Trailing-twelve-month key metrics (no period date on the wire).
#[derive(Clone, Copy, Debug, PartialEq, Eq, Structural)]
pub struct KeyMetricsTTM {
    pub market_cap_ttm: Option<i64>,
    pub pe_ratio_ttm: Option<i64>,
    pub earnings_yield_ttm: Option<i64>,
    pub roic_ttm: Option<i64>,
}

/// Numeric company-profile figures.  Textual profile fields belong to the
/// rendering collaborator and are not cached here.
#[derive(Clone, Copy, Debug, PartialEq, Eq, Structural)]
pub struct Profile {
    pub price: Option<i64>,
    pub beta: Option<i64>,
    pub vol_avg: Option<i64>,
    pub mkt_cap: Option<i64>,
    pub last_div: Option<i64>,
    pub changes: Option<i64>,
    pub dcf_diff: Option<i64>,
    pub dcf: Option<i64>,
}

/// Discounted-cash-flow valuation figures.
#[derive(Clone, Copy, Debug, PartialEq, Eq, Structural)]
pub struct AdvancedLeveredDiscountedCashFlow {
    pub equity_value: Option<i64>,
    pub equity_value_per_share: Option<i64>,
}

/// Which slices a caller wants ensured for a record, and at what horizon.
pub struct NeededData {
    pub income: (bool, TimePeriod),
    pub income_qtr: (bool, TimePeriod),
    pub balance: (bool, TimePeriod),
    pub ratios: (bool, TimePeriod),
    pub key_metrics: (bool, TimePeriod),
    pub key_metrics_ttm: (bool, TimePeriod),
}

/// What the staleness rule reads of a store's calendar-reference slice:
/// its length, the day number of its most recent period, and the day the
/// slice was last pulled.
pub struct RefSliceInfo {
    pub len: nat,
    pub recent_date: Option<i64>,
    pub last_pull: Option<i64>,
}

/// A store's calendar-reference slices, as the staleness rule reads them.
/// Each store nominates one annual and one quarterly slice (its income or
/// ratio series) whose dates stand for the freshness of the whole store.
pub trait StockInfo: Sized {
    /// The annual reference slice, abstractly.
    spec fn annual_info(&self) -> RefSliceInfo;

    /// The quarterly reference slice, abstractly.
    spec fn quarter_info(&self) -> RefSliceInfo;

    fn length_of_annual_statement(&self) -> (n: usize)
        ensures
            n as nat == self.annual_info().len,
    ;

    fn length_of_quarter_statement(&self) -> (n: usize)
        ensures
            n as nat == self.quarter_info().len,
    ;

    /// Day number of the most recent annual period, `None` when the slice
    /// is empty or its record carries no date.
    fn recent_annual_date(&self) -> (d: Option<i64>)
        ensures
            d == self.annual_info().recent_date,
    ;

    /// Day number of the most recent quarterly period, `None` when the
    /// slice is empty or its record carries no date.
    fn recent_quarter_date(&self) -> (d: Option<i64>)
        ensures
            d == self.quarter_info().recent_date,
    ;

    fn last_pull_time_annual(&self) -> (d: Option<i64>)
        ensures
            d == self.annual_info().last_pull,
    ;

    fn last_pull_time_quarter(&self) -> (d: Option<i64>)
        ensures
            d == self.quarter_info().last_pull,
    ;
}

} // verus!
