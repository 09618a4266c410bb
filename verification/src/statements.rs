//! The statement store: cached income, balance-sheet and cash-flow slices
//! for one symbol, with the ensure logic split into pure planning
//! (`needs_*_fetch`, `ttm_income_plan`) and installation (`install_*`,
//! `synthesize_ttm_income`).  The caller performs the remote fetch between
//! the two and hands the result in; a failed fetch hands in an empty
//! vector, and provenance is recorded either way.
//!
//! The trailing-twelve-month income slice is never fetched: it is
//! synthesized by summing the additive fields of the four most recent
//! quarterly records.  Ratio fields are not additive and stay unset.

use vstd::prelude::*;

use crate::helper_structs::{
    BalanceSheetStatement, CashFlowStatement, FetchStats, IncomeStatement, MAX_AMOUNT,
    RefSliceInfo, StatementSlice, StockInfo, TimePeriod,
};
use crate::utils::{
    needs_update_based_on_time, spec_needs_length_fetch, spec_needs_update, spec_pull_stats,
    update_pull_stats,
};

verus! {

/// The value of an optional amount, counting an absent field as zero,
/// exactly as the synthesis sums them.
pub open spec fn opt_or0(o: Option<i64>) -> int {
    match o {
        Some(v) => v as int,
        None => 0,
    }
}

/// An optional amount small enough that four-quarter sums stay in `i64`.
pub open spec fn amount_bounded(o: Option<i64>) -> bool {
    match o {
        Some(v) => -MAX_AMOUNT <= v <= MAX_AMOUNT,
        None => true,
    }
}

/// All additive fields of an income record are bounded.
pub open spec fn income_amount_wf(r: IncomeStatement) -> bool {
    &&& amount_bounded(r.revenue)
    &&& amount_bounded(r.cost_of_revenue)
    &&& amount_bounded(r.gross_profit)
    &&& amount_bounded(r.operating_income)
    &&& amount_bounded(r.income_before_tax)
    &&& amount_bounded(r.income_tax_expense)
    &&& amount_bounded(r.net_income)
    &&& amount_bounded(r.eps)
}

/// Every record of an income run is bounded.
pub open spec fn income_items_wf(items: Seq<IncomeStatement>) -> bool {
    forall|i: int| 0 <= i < items.len() ==> income_amount_wf(#[trigger] items[i])
}

/// Sum of `sel` over the `k` most recent records, absent fields as zero.
pub open spec fn sum_field(
    qs: Seq<IncomeStatement>,
    k: int,
    sel: spec_fn(IncomeStatement) -> Option<i64>,
) -> int
    decreases k,
{
    if k <= 0 {
        0
    } else {
        sum_field(qs, k - 1, sel) + opt_or0(sel(qs[k - 1]))
    }
}

/// The empty aggregate the synthesis starts from: every field unset.
pub open spec fn ttm_seed() -> IncomeStatement {
    IncomeStatement {
        date: None,
        revenue: None,
        cost_of_revenue: None,
        gross_profit: None,
        gross_profit_ratio: None,
        operating_income: None,
        income_before_tax: None,
        income_tax_expense: None,
        net_income: None,
        net_income_ratio: None,
        eps: None,
    }
}

/// One synthesis step: add a quarter's additive fields into the
/// aggregate.  The date and the ratio fields are carried unchanged, so
/// they remain unset.
pub open spec fn ttm_add(acc: IncomeStatement, st: IncomeStatement) -> IncomeStatement {
    IncomeStatement {
        date: acc.date,
        revenue: Some((opt_or0(st.revenue) + opt_or0(acc.revenue)) as i64),
        cost_of_revenue: Some((opt_or0(st.cost_of_revenue) + opt_or0(acc.cost_of_revenue)) as i64),
        gross_profit: Some((opt_or0(st.gross_profit) + opt_or0(acc.gross_profit)) as i64),
        gross_profit_ratio: acc.gross_profit_ratio,
        operating_income: Some(
            (opt_or0(st.operating_income) + opt_or0(acc.operating_income)) as i64,
        ),
        income_before_tax: Some(
            (opt_or0(st.income_before_tax) + opt_or0(acc.income_before_tax)) as i64,
        ),
        income_tax_expense: Some(
            (opt_or0(st.income_tax_expense) + opt_or0(acc.income_tax_expense)) as i64,
        ),
        net_income: Some((opt_or0(st.net_income) + opt_or0(acc.net_income)) as i64),
        net_income_ratio: acc.net_income_ratio,
        eps: Some((opt_or0(st.eps) + opt_or0(acc.eps)) as i64),
    }
}

/// The aggregate after folding in the `k` most recent quarters.
pub open spec fn spec_ttm_partial(qs: Seq<IncomeStatement>, k: int) -> IncomeStatement
    decreases k,
{
    if k <= 0 {
        ttm_seed()
    } else {
        ttm_add(spec_ttm_partial(qs, k - 1), qs[k - 1])
    }
}

/// How many quarters the synthesis consumes: the four most recent, or all
/// of them when fewer are cached.
pub open spec fn spec_ttm_count(len: nat) -> int {
    if len < 4 {
        len as int
    } else {
        4
    }
}

/// The synthesized trailing-twelve-month record.  With no quarters cached
/// every field stays unset; otherwise each additive field is the sum over
/// the consumed quarters and each ratio field stays unset.
pub open spec fn spec_ttm_of(qs: Seq<IncomeStatement>) -> IncomeStatement {
    spec_ttm_partial(qs, spec_ttm_count(qs.len()))
}

/// Bounds carried by the synthesis loop: after `k` quarters each additive
/// field of the aggregate is at most `k` amounts large.
pub open spec fn ttm_acc_bounded(acc: IncomeStatement, k: int) -> bool {
    &&& -k * MAX_AMOUNT <= opt_or0(acc.revenue) <= k * MAX_AMOUNT
    &&& -k * MAX_AMOUNT <= opt_or0(acc.cost_of_revenue) <= k * MAX_AMOUNT
    &&& -k * MAX_AMOUNT <= opt_or0(acc.gross_profit) <= k * MAX_AMOUNT
    &&& -k * MAX_AMOUNT <= opt_or0(acc.operating_income) <= k * MAX_AMOUNT
    &&& -k * MAX_AMOUNT <= opt_or0(acc.income_before_tax) <= k * MAX_AMOUNT
    &&& -k * MAX_AMOUNT <= opt_or0(acc.income_tax_expense) <= k * MAX_AMOUNT
    &&& -k * MAX_AMOUNT <= opt_or0(acc.net_income) <= k * MAX_AMOUNT
    &&& -k * MAX_AMOUNT <= opt_or0(acc.eps) <= k * MAX_AMOUNT
}

proof fn lemma_ttm_partial_bounded(qs: Seq<IncomeStatement>, k: int)
    requires
        income_items_wf(qs),
        0 <= k <= qs.len(),
        k <= 4,
    ensures
        ttm_acc_bounded(spec_ttm_partial(qs, k), k),
    decreases k,
{
    if k > 0 {
        lemma_ttm_partial_bounded(qs, k - 1);
    }
}

/// Per-symbol cache of statement slices, most recent period first.
#[derive(Clone, Debug, PartialEq)]
pub struct Statements {
    pub annual_income: StatementSlice<IncomeStatement>,
    pub quarter_income: StatementSlice<IncomeStatement>,
    pub ttm_income: StatementSlice<IncomeStatement>,
    pub annual_balance: StatementSlice<BalanceSheetStatement>,
    pub quarter_balance: StatementSlice<BalanceSheetStatement>,
    pub annual_cash: StatementSlice<CashFlowStatement>,
    pub quarter_cash: StatementSlice<CashFlowStatement>,
}

impl StockInfo for Statements {
    /// The annual income slice is the store's annual calendar reference.
    open spec fn annual_info(&self) -> RefSliceInfo {
        RefSliceInfo {
            len: self.annual_income.items@.len(),
            recent_date: if self.annual_income.items@.len() > 0 {
                self.annual_income.items@[0].date
            } else {
                None
            },
            last_pull: self.annual_income.stats.last_pull_time,
        }
    }

    /// The quarterly income slice is the store's quarterly calendar
    /// reference.
    open spec fn quarter_info(&self) -> RefSliceInfo {
        RefSliceInfo {
            len: self.quarter_income.items@.len(),
            recent_date: if self.quarter_income.items@.len() > 0 {
                self.quarter_income.items@[0].date
            } else {
                None
            },
            last_pull: self.quarter_income.stats.last_pull_time,
        }
    }

    fn length_of_annual_statement(&self) -> (n: usize) {
        self.annual_income.items.len()
    }

    fn length_of_quarter_statement(&self) -> (n: usize) {
        self.quarter_income.items.len()
    }

    fn recent_annual_date(&self) -> (d: Option<i64>) {
        if self.annual_income.items.len() > 0 {
            self.annual_income.items[0].date
        } else {
            None
        }
    }

    fn recent_quarter_date(&self) -> (d: Option<i64>) {
        if self.quarter_income.items.len() > 0 {
            self.quarter_income.items[0].date
        } else {
            None
        }
    }

    fn last_pull_time_annual(&self) -> (d: Option<i64>) {
        self.annual_income.stats.last_pull_time
    }

    fn last_pull_time_quarter(&self) -> (d: Option<i64>) {
        self.quarter_income.stats.last_pull_time
    }
}

/// Whether an income fetch is due: the length rule on the slot `period`
/// selects, or calendar staleness of the store.  The trailing-twelve-month
/// slice has its own plan, [`Statements::ttm_income_plan`].
pub open spec fn spec_needs_income_fetch(s: Statements, period: TimePeriod, today: int) -> bool {
    match period {
        TimePeriod::Annual(v) => spec_needs_length_fetch(
            s.annual_income.items@.len(),
            s.annual_income.stats.last_pull_length as nat,
            v,
        ) || spec_needs_update(s.annual_info(), s.quarter_info(), period, today),
        TimePeriod::Quarter(v) => spec_needs_length_fetch(
            s.quarter_income.items@.len(),
            s.quarter_income.stats.last_pull_length as nat,
            v,
        ) || spec_needs_update(s.annual_info(), s.quarter_info(), period, today),
        TimePeriod::TTM() | TimePeriod::NA() => false,
    }
}

/// Whether a balance-sheet fetch is due.
pub open spec fn spec_needs_balance_fetch(s: Statements, period: TimePeriod, today: int) -> bool {
    match period {
        TimePeriod::Annual(v) => spec_needs_length_fetch(
            s.annual_balance.items@.len(),
            s.annual_balance.stats.last_pull_length as nat,
            v,
        ) || spec_needs_update(s.annual_info(), s.quarter_info(), period, today),
        TimePeriod::Quarter(v) => spec_needs_length_fetch(
            s.quarter_balance.items@.len(),
            s.quarter_balance.stats.last_pull_length as nat,
            v,
        ) || spec_needs_update(s.annual_info(), s.quarter_info(), period, today),
        TimePeriod::TTM() | TimePeriod::NA() => false,
    }
}

/// Whether a cash-flow fetch is due.
pub open spec fn spec_needs_cash_fetch(s: Statements, period: TimePeriod, today: int) -> bool {
    match period {
        TimePeriod::Annual(v) => spec_needs_length_fetch(
            s.annual_cash.items@.len(),
            s.annual_cash.stats.last_pull_length as nat,
            v,
        ) || spec_needs_update(s.annual_info(), s.quarter_info(), period, today),
        TimePeriod::Quarter(v) => spec_needs_length_fetch(
            s.quarter_cash.items@.len(),
            s.quarter_cash.stats.last_pull_length as nat,
            v,
        ) || spec_needs_update(s.annual_info(), s.quarter_info(), period, today),
        TimePeriod::TTM() | TimePeriod::NA() => false,
    }
}

/// The trailing-twelve-month income slice is rebuilt when it has never
/// been built (empty and never attempted) or the quarterly data is
/// calendar-stale.
pub open spec fn spec_ttm_recompute(s: Statements, today: int) -> bool {
    (s.ttm_income.items@.len() == 0 && 1 > s.ttm_income.stats.last_pull_length)
        || spec_needs_update(s.annual_info(), s.quarter_info(), TimePeriod::TTM(), today)
}

/// Before rebuilding, the quarterly income run is refetched when it is
/// shorter than the eight quarters the synthesis wants (and eight exceeds
/// the horizon last attempted) or the store is calendar-stale.
pub open spec fn spec_ttm_fetch_quarters(s: Statements, today: int) -> bool {
    spec_ttm_recompute(s, today) && (spec_needs_length_fetch(
        s.quarter_income.items@.len(),
        s.quarter_income.stats.last_pull_length as nat,
        8,
    ) || spec_needs_update(s.annual_info(), s.quarter_info(), TimePeriod::TTM(), today))
}

/// What an ensure of the trailing-twelve-month income slice must do.
#[derive(Clone, Copy, Debug, PartialEq, Eq, Structural)]
pub struct TtmPlan {
    pub fetch_quarters: bool,
    pub recompute: bool,
}

/// A store as `Statements::new` builds it: every slice empty, never
/// fetched.
pub open spec fn statements_empty(s: Statements) -> bool {
    &&& s.annual_income.items@.len() == 0
    &&& s.quarter_income.items@.len() == 0
    &&& s.ttm_income.items@.len() == 0
    &&& s.annual_balance.items@.len() == 0
    &&& s.quarter_balance.items@.len() == 0
    &&& s.annual_cash.items@.len() == 0
    &&& s.quarter_cash.items@.len() == 0
    &&& s.annual_income.stats == (FetchStats { last_pull_length: 0, last_pull_time: None })
    &&& s.quarter_income.stats == (FetchStats { last_pull_length: 0, last_pull_time: None })
    &&& s.ttm_income.stats == (FetchStats { last_pull_length: 0, last_pull_time: None })
    &&& s.annual_balance.stats == (FetchStats { last_pull_length: 0, last_pull_time: None })
    &&& s.quarter_balance.stats == (FetchStats { last_pull_length: 0, last_pull_time: None })
    &&& s.annual_cash.stats == (FetchStats { last_pull_length: 0, last_pull_time: None })
    &&& s.quarter_cash.stats == (FetchStats { last_pull_length: 0, last_pull_time: None })
}

impl Statements {
    /// An empty store: every slice empty, never fetched.
    pub fn new() -> (r: Self)
        ensures
            statements_empty(r),
    {
        Self {
            annual_income: StatementSlice { items: Vec::new(), stats: FetchStats::new(0) },
            quarter_income: StatementSlice { items: Vec::new(), stats: FetchStats::new(0) },
            ttm_income: StatementSlice { items: Vec::new(), stats: FetchStats::new(0) },
            annual_balance: StatementSlice { items: Vec::new(), stats: FetchStats::new(0) },
            quarter_balance: StatementSlice { items: Vec::new(), stats: FetchStats::new(0) },
            annual_cash: StatementSlice { items: Vec::new(), stats: FetchStats::new(0) },
            quarter_cash: StatementSlice { items: Vec::new(), stats: FetchStats::new(0) },
        }
    }

    /// Decides whether an income fetch is due for `period` on day `today`.
    pub fn needs_income_fetch(&self, period: &TimePeriod, today: i64) -> (r: bool)
        ensures
            r == spec_needs_income_fetch(*self, *period, today as int),
    {
        let should_update = needs_update_based_on_time(self, period, today);
        match period {
            TimePeriod::Annual(v) => (self.annual_income.items.len() < *v as usize
                && *v as usize > self.annual_income.stats.last_pull_length) || should_update,
            TimePeriod::Quarter(v) => (self.quarter_income.items.len() < *v as usize
                && *v as usize > self.quarter_income.stats.last_pull_length) || should_update,
            TimePeriod::TTM() | TimePeriod::NA() => false,
        }
    }

    /// Decides whether a balance-sheet fetch is due.
    pub fn needs_balance_fetch(&self, period: &TimePeriod, today: i64) -> (r: bool)
        ensures
            r == spec_needs_balance_fetch(*self, *period, today as int),
    {
        let should_update = needs_update_based_on_time(self, period, today);
        match period {
            TimePeriod::Annual(v) => (self.annual_balance.items.len() < *v as usize
                && *v as usize > self.annual_balance.stats.last_pull_length) || should_update,
            TimePeriod::Quarter(v) => (self.quarter_balance.items.len() < *v as usize
                && *v as usize > self.quarter_balance.stats.last_pull_length) || should_update,
            TimePeriod::TTM() | TimePeriod::NA() => false,
        }
    }

    /// Decides whether a cash-flow fetch is due.
    pub fn needs_cash_fetch(&self, period: &TimePeriod, today: i64) -> (r: bool)
        ensures
            r == spec_needs_cash_fetch(*self, *period, today as int),
    {
        let should_update = needs_update_based_on_time(self, period, today);
        match period {
            TimePeriod::Annual(v) => (self.annual_cash.items.len() < *v as usize
                && *v as usize > self.annual_cash.stats.last_pull_length) || should_update,
            TimePeriod::Quarter(v) => (self.quarter_cash.items.len() < *v as usize
                && *v as usize > self.quarter_cash.stats.last_pull_length) || should_update,
            TimePeriod::TTM() | TimePeriod::NA() => false,
        }
    }

    /// Plans an ensure of the trailing-twelve-month income slice: whether
    /// the quarterly run must be refetched first, and whether the
    /// aggregate must be rebuilt.
    pub fn ttm_income_plan(&self, today: i64) -> (r: TtmPlan)
        ensures
            r.recompute == spec_ttm_recompute(*self, today as int),
            r.fetch_quarters == spec_ttm_fetch_quarters(*self, today as int),
    {
        let should_update = needs_update_based_on_time(self, &TimePeriod::TTM(), today);
        let recompute = (self.ttm_income.items.len() == 0
            && 1 > self.ttm_income.stats.last_pull_length) || should_update;
        let fetch_quarters = recompute && ((self.quarter_income.items.len() < 8
            && 8 > self.quarter_income.stats.last_pull_length) || should_update);
        TtmPlan { fetch_quarters, recompute }
    }

    /// Replaces the income slot `period` selects with `data`, recording
    /// that this horizon was attempted today.  The caller passes the
    /// fetch's result — an empty vector when the fetch failed, so that the
    /// attempt is still recorded and not retried at the same horizon.
    pub fn install_income(&mut self, period: &TimePeriod, today: i64, data: Vec<IncomeStatement>)
        requires
            matches!(*period, TimePeriod::Annual(_) | TimePeriod::Quarter(_)),
            matches!(*period, TimePeriod::Quarter(_)) ==> income_items_wf(data@),
        ensures
            *final(self) == match *period {
                TimePeriod::Annual(_) => Statements {
                    annual_income: StatementSlice {
                        items: data,
                        stats: spec_pull_stats(*period, today as int),
                    },
                    ..*old(self)
                },
                _ => Statements {
                    quarter_income: StatementSlice {
                        items: data,
                        stats: spec_pull_stats(*period, today as int),
                    },
                    ..*old(self)
                },
            },
    {
        let stats = update_pull_stats(period, today);
        match period {
            TimePeriod::Annual(_) => {
                self.annual_income = StatementSlice { items: data, stats };
            },
            _ => {
                self.quarter_income = StatementSlice { items: data, stats };
            },
        }
    }

    /// Replaces the balance-sheet slot `period` selects with `data`.
    pub fn install_balance(
        &mut self,
        period: &TimePeriod,
        today: i64,
        data: Vec<BalanceSheetStatement>,
    )
        requires
            matches!(*period, TimePeriod::Annual(_) | TimePeriod::Quarter(_)),
        ensures
            *final(self) == match *period {
                TimePeriod::Annual(_) => Statements {
                    annual_balance: StatementSlice {
                        items: data,
                        stats: spec_pull_stats(*period, today as int),
                    },
                    ..*old(self)
                },
                _ => Statements {
                    quarter_balance: StatementSlice {
                        items: data,
                        stats: spec_pull_stats(*period, today as int),
                    },
                    ..*old(self)
                },
            },
    {
        let stats = update_pull_stats(period, today);
        match period {
            TimePeriod::Annual(_) => {
                self.annual_balance = StatementSlice { items: data, stats };
            },
            _ => {
                self.quarter_balance = StatementSlice { items: data, stats };
            },
        }
    }

    /// Replaces the cash-flow slot `period` selects with `data`.
    pub fn install_cash(&mut self, period: &TimePeriod, today: i64, data: Vec<CashFlowStatement>)
        requires
            matches!(*period, TimePeriod::Annual(_) | TimePeriod::Quarter(_)),
        ensures
            *final(self) == match *period {
                TimePeriod::Annual(_) => Statements {
                    annual_cash: StatementSlice {
                        items: data,
                        stats: spec_pull_stats(*period, today as int),
                    },
                    ..*old(self)
                },
                _ => Statements {
                    quarter_cash: StatementSlice {
                        items: data,
                        stats: spec_pull_stats(*period, today as int),
                    },
                    ..*old(self)
                },
            },
    {
        let stats = update_pull_stats(period, today);
        match period {
            TimePeriod::Annual(_) => {
                self.annual_cash = StatementSlice { items: data, stats };
            },
            _ => {
                self.quarter_cash = StatementSlice { items: data, stats };
            },
        }
    }

    /// Rebuilds the trailing-twelve-month income slice from the four most
    /// recent cached quarters, recording the rebuild as an attempt of
    /// horizon 1 made today.
    pub fn synthesize_ttm_income(&mut self, today: i64)
        requires
            income_items_wf(old(self).quarter_income.items@),
        ensures
            final(self).ttm_income.items@ =~= seq![spec_ttm_of(old(self).quarter_income.items@)],
            final(self).ttm_income.stats == (FetchStats { last_pull_length: 1, last_pull_time: Some(today) }),
            final(self).annual_income == old(self).annual_income,
            final(self).quarter_income == old(self).quarter_income,
            final(self).annual_balance == old(self).annual_balance,
            final(self).quarter_balance == old(self).quarter_balance,
            final(self).annual_cash == old(self).annual_cash,
            final(self).quarter_cash == old(self).quarter_cash,
    {
        let ghost qs = self.quarter_income.items@;
        let mut acc = IncomeStatement {
            date: None,
            revenue: None,
            cost_of_revenue: None,
            gross_profit: None,
            gross_profit_ratio: None,
            operating_income: None,
            income_before_tax: None,
            income_tax_expense: None,
            net_income: None,
            net_income_ratio: None,
            eps: None,
        };
        assert(acc == spec_ttm_partial(qs, 0));
        let mut i: usize = 0;
        while i < 4
            invariant
                0 <= i <= 4,
                qs == self.quarter_income.items@,
                income_items_wf(qs),
                acc == spec_ttm_partial(qs, if i <= qs.len() { i as int } else { qs.len() as int }),
                *self == *old(self),
            decreases 4 - i,
        {
            if i < self.quarter_income.items.len() {
                let ghost k = i as int;
                proof {
                    lemma_ttm_partial_bounded(qs, k);
                }
                let st = &self.quarter_income.items[i];
                let acc_rev = opt_val(acc.revenue);
                let acc_cor = opt_val(acc.cost_of_revenue);
                let acc_gp = opt_val(acc.gross_profit);
                let acc_oi = opt_val(acc.operating_income);
                let acc_ibt = opt_val(acc.income_before_tax);
                let acc_ite = opt_val(acc.income_tax_expense);
                let acc_ni = opt_val(acc.net_income);
                let acc_eps = opt_val(acc.eps);
                acc = IncomeStatement {
                    date: acc.date,
                    revenue: Some(opt_val(st.revenue) + acc_rev),
                    cost_of_revenue: Some(opt_val(st.cost_of_revenue) + acc_cor),
                    gross_profit: Some(opt_val(st.gross_profit) + acc_gp),
                    gross_profit_ratio: acc.gross_profit_ratio,
                    operating_income: Some(opt_val(st.operating_income) + acc_oi),
                    income_before_tax: Some(opt_val(st.income_before_tax) + acc_ibt),
                    income_tax_expense: Some(opt_val(st.income_tax_expense) + acc_ite),
                    net_income: Some(opt_val(st.net_income) + acc_ni),
                    net_income_ratio: acc.net_income_ratio,
                    eps: Some(opt_val(st.eps) + acc_eps),
                };
                assert(acc == spec_ttm_partial(qs, k + 1));
            }
            i = i + 1;
        }
        let mut items: Vec<IncomeStatement> = Vec::new();
        items.push(acc);
        self.ttm_income = StatementSlice {
            items,
            stats: FetchStats { last_pull_length: 1, last_pull_time: Some(today) },
        };
    }
}

/// The value of an optional amount, an absent field counting as zero.
fn opt_val(o: Option<i64>) -> (r: i64)
    ensures
        r as int == opt_or0(o),
{
    match o {
        Some(v) => v,
        None => 0,
    }
}

/// After a fetch is installed at horizon `h` on day `d`, no ensure at a
/// horizon up to `h` fetches again on day `d`: the length rule fails
/// because `h` was just recorded as attempted, and the calendar rule fails
/// because the last pull was today.  This holds however few periods the
/// fetch actually returned.
pub proof fn lemma_no_retry_storm(s: Statements, h: u8, h2: u8, d: i64)
    requires
        s.annual_income.stats.last_pull_length == h as usize,
        s.annual_income.stats.last_pull_time == Some(d),
        h2 <= h,
    ensures
        !spec_needs_income_fetch(s, TimePeriod::Annual(h2), d as int),
{
}

} // verus!
