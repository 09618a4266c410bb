//! The screening rule: an ordered sequence of predicates over one
//! symbol's ensured data, evaluated lazily so that a symbol failing an
//! early step never pays for the later steps' fetches.
//!
//! The caller walks the steps in order: [`buffetology_requirement`] names
//! the slice a step needs ensured (steps that reuse already-ensured data
//! need none), and [`check_step`] evaluates the step's predicate over the
//! cached data.  The first failing step rejects the symbol; a symbol
//! passing all steps passes the screen.  Every predicate is a pure
//! function of the ensured data, so evaluation order affects only fetch
//! cost, never the outcome.

use vstd::prelude::*;

use crate::cache::{cache_wf, get_or_create_post, tickers_unique, SymbolCache};
use crate::helper_structs::{AvailableTraded, KeyMetrics, Ratios};
use crate::statements::opt_or0;
use crate::stock::Stock;

verus! {

/// Fixed-point mean return on invested capital below which a symbol is
/// rejected (0.12 at `RATIO_SCALE`).
pub const ROIC_MIN_SCALED: i64 = 1_200;

/// Fixed-point mean return on equity below which a symbol is rejected
/// (0.15 at `RATIO_SCALE`).
pub const ROE_MIN_SCALED: i64 = 1_500;

/// Fixed-point trailing-twelve-month earnings yield below which a symbol
/// is rejected (0.03 at `RATIO_SCALE`).
pub const EARNINGS_YIELD_MIN_SCALED: i64 = 300;

/// Long-term debt may be at most this multiple of net income.
pub const LONG_TERM_DEBT_MULTIPLE: i64 = 5;

/// The comparison Rust's `Option` ordering gives a partially-present
/// pair: an absent value sorts below every present one.
pub open spec fn opt_lt(a: Option<i64>, b: Option<i64>) -> bool {
    match (a, b) {
        (None, None) => false,
        (None, Some(_)) => true,
        (Some(_), None) => false,
        (Some(x), Some(y)) => x < y,
    }
}

/// Sum of return on invested capital over the `k` most recent records,
/// absent values as zero.
pub open spec fn sum_roic(ms: Seq<KeyMetrics>, k: int) -> int
    decreases k,
{
    if k <= 0 {
        0
    } else {
        sum_roic(ms, k - 1) + opt_or0(ms[k - 1].roic)
    }
}

/// Sum of return on equity over the `k` most recent records, absent
/// values as zero.
pub open spec fn sum_roe(rs: Seq<Ratios>, k: int) -> int
    decreases k,
{
    if k <= 0 {
        0
    } else {
        sum_roe(rs, k - 1) + opt_or0(rs[k - 1].return_on_equity)
    }
}

/// Exactly ten annual income periods came back.
pub open spec fn spec_step_income_count(s: Stock) -> bool {
    s.statements.annual_income.items@.len() == 10
}

/// Earnings per share do not decrease across the ten-year checkpoints:
/// the most recent year is at least the fifth year back, which is at
/// least the tenth year back.
pub open spec fn spec_step_eps_trend(s: Stock) -> bool {
    let items = s.statements.annual_income.items@;
    &&& items.len() >= 10
    &&& !opt_lt(items[0].eps, items[4].eps)
    &&& !opt_lt(items[4].eps, items[9].eps)
}

/// No annual earnings-per-share value of the ten years is negative (an
/// absent value counts as negative).
pub open spec fn spec_step_eps_positive(s: Stock) -> bool {
    let items = s.statements.annual_income.items@;
    &&& items.len() >= 10
    &&& forall|i: int| 0 <= i < 10 ==> !opt_lt((#[trigger] items[i]).eps, Some(0i64))
}

/// Ten annual key-metric periods came back and mean return on invested
/// capital is at least the threshold.
pub open spec fn spec_step_roic(s: Stock) -> bool {
    let items = s.metrics.annual_key_metrics.items@;
    &&& items.len() == 10
    &&& sum_roic(items, 10) >= 10 * (ROIC_MIN_SCALED as int)
}

/// Ten annual ratio periods came back and mean return on equity is at
/// least the threshold.
pub open spec fn spec_step_roe(s: Stock) -> bool {
    let items = s.metrics.annual_ratios.items@;
    &&& items.len() == 10
    &&& sum_roe(items, 10) >= 10 * (ROE_MIN_SCALED as int)
}

/// Trailing-twelve-month key metrics are present and the earnings yield
/// reaches the threshold (an absent yield is below every threshold).
pub open spec fn spec_step_earnings_yield(s: Stock) -> bool {
    let items = s.metrics.ttm_key_metrics.items@;
    &&& items.len() > 0
    &&& !opt_lt(items[0].earnings_yield_ttm, Some(EARNINGS_YIELD_MIN_SCALED))
}

/// The most recent quarter's long-term debt and the most recent year's
/// net income are both present, and the debt is at most five times the
/// income.
pub open spec fn spec_step_debt(s: Stock) -> bool {
    let qb = s.statements.quarter_balance.items@;
    let ai = s.statements.annual_income.items@;
    &&& qb.len() > 0
    &&& ai.len() > 0
    &&& match (qb[0].long_term_debt, ai[0].net_income) {
        (Some(ltd), Some(ni)) => ltd as int <= (LONG_TERM_DEBT_MULTIPLE as int) * (ni as int),
        _ => false,
    }
}

/// Whether screening step `step` (1 through 7, in evaluation order)
/// passes on `s`'s cached data.
pub open spec fn spec_step_pass(s: Stock, step: int) -> bool {
    if step == 1 {
        spec_step_income_count(s)
    } else if step == 2 {
        spec_step_eps_trend(s)
    } else if step == 3 {
        spec_step_eps_positive(s)
    } else if step == 4 {
        spec_step_roic(s)
    } else if step == 5 {
        spec_step_roe(s)
    } else if step == 6 {
        spec_step_earnings_yield(s)
    } else {
        spec_step_debt(s)
    }
}

/// A symbol passes the screen when every step passes.
pub open spec fn spec_is_buffetology(s: Stock) -> bool {
    forall|step: int| 1 <= step <= 7 ==> spec_step_pass(s, step)
}

/// The data a screening step must have ensured before its predicate is
/// evaluated.
#[derive(Clone, Copy, Debug, PartialEq, Eq, Structural)]
pub enum ScreenRequest {
    AnnualIncome(u8),
    AnnualKeyMetrics(u8),
    AnnualRatios(u8),
    TtmKeyMetrics(),
    QuarterBalance(u8),
}

/// The slice step `step` needs ensured, if any: ten years of income
/// before step 1, ten years of key metrics before step 4, ten years of
/// ratios before step 5, trailing-twelve-month key metrics before step 6
/// and one quarter of balance sheet before step 7.  Steps 2 and 3 reuse
/// step 1's data.
pub fn buffetology_requirement(step: usize) -> (r: Option<ScreenRequest>)
    requires
        1 <= step <= 7,
    ensures
        step == 1 ==> r == Some(ScreenRequest::AnnualIncome(10)),
        step == 2 ==> r is None,
        step == 3 ==> r is None,
        step == 4 ==> r == Some(ScreenRequest::AnnualKeyMetrics(10)),
        step == 5 ==> r == Some(ScreenRequest::AnnualRatios(10)),
        step == 6 ==> r == Some(ScreenRequest::TtmKeyMetrics()),
        step == 7 ==> r == Some(ScreenRequest::QuarterBalance(1)),
{
    if step == 1 {
        Some(ScreenRequest::AnnualIncome(10))
    } else if step == 4 {
        Some(ScreenRequest::AnnualKeyMetrics(10))
    } else if step == 5 {
        Some(ScreenRequest::AnnualRatios(10))
    } else if step == 6 {
        Some(ScreenRequest::TtmKeyMetrics())
    } else if step == 7 {
        Some(ScreenRequest::QuarterBalance(1))
    } else {
        None
    }
}

/// Whether `a` is less than `b` under `Option` ordering: an absent value
/// sorts below every present one.
fn opt_lt_exec(a: Option<i64>, b: Option<i64>) -> (r: bool)
    ensures
        r == opt_lt(a, b),
{
    match (a, b) {
        (None, None) => false,
        (None, Some(_)) => true,
        (Some(_), None) => false,
        (Some(x), Some(y)) => x < y,
    }
}

/// Evaluates screening step `step` over `stock`'s cached data.
pub fn check_step(stock: &Stock, step: usize) -> (r: bool)
    requires
        1 <= step <= 7,
    ensures
        r == spec_step_pass(*stock, step as int),
{
    if step == 1 {
        stock.statements.annual_income.items.len() == 10
    } else if step == 2 {
        let items = &stock.statements.annual_income.items;
        if items.len() < 10 {
            false
        } else {
            !opt_lt_exec(items[0].eps, items[4].eps) && !opt_lt_exec(items[4].eps, items[9].eps)
        }
    } else if step == 3 {
        let items = &stock.statements.annual_income.items;
        if items.len() < 10 {
            false
        } else {
            let mut i: usize = 0;
            let mut ok = true;
            while i < 10
                invariant
                    0 <= i <= 10,
                    stock.statements.annual_income.items@.len() >= 10,
                    ok == forall|j: int|
                        0 <= j < i ==> !opt_lt(
                            (#[trigger] stock.statements.annual_income.items@[j]).eps,
                            Some(0i64),
                        ),
                decreases 10 - i,
            {
                if opt_lt_exec(stock.statements.annual_income.items[i].eps, Some(0)) {
                    ok = false;
                }
                i = i + 1;
            }
            ok
        }
    } else if step == 4 {
        let items = &stock.metrics.annual_key_metrics.items;
        if items.len() != 10 {
            false
        } else {
            let mut sum: i128 = 0;
            let mut i: usize = 0;
            while i < 10
                invariant
                    0 <= i <= 10,
                    stock.metrics.annual_key_metrics.items@.len() == 10,
                    sum as int == sum_roic(stock.metrics.annual_key_metrics.items@, i as int),
                    -(i as int) * 0x8000_0000_0000_0000 <= sum as int <= (i as int)
                        * 0x7FFF_FFFF_FFFF_FFFF,
                decreases 10 - i,
            {
                let v = match stock.metrics.annual_key_metrics.items[i].roic {
                    Some(ro) => ro,
                    None => 0,
                };
                sum = sum + (v as i128);
                i = i + 1;
            }
            sum >= (ROIC_MIN_SCALED as i128) * 10
        }
    } else if step == 5 {
        let items = &stock.metrics.annual_ratios.items;
        if items.len() != 10 {
            false
        } else {
            let mut sum: i128 = 0;
            let mut i: usize = 0;
            while i < 10
                invariant
                    0 <= i <= 10,
                    stock.metrics.annual_ratios.items@.len() == 10,
                    sum as int == sum_roe(stock.metrics.annual_ratios.items@, i as int),
                    -(i as int) * 0x8000_0000_0000_0000 <= sum as int <= (i as int)
                        * 0x7FFF_FFFF_FFFF_FFFF,
                decreases 10 - i,
            {
                let v = match stock.metrics.annual_ratios.items[i].return_on_equity {
                    Some(ro) => ro,
                    None => 0,
                };
                sum = sum + (v as i128);
                i = i + 1;
            }
            sum >= (ROE_MIN_SCALED as i128) * 10
        }
    } else if step == 6 {
        let items = &stock.metrics.ttm_key_metrics.items;
        if items.len() == 0 {
            false
        } else {
            !opt_lt_exec(items[0].earnings_yield_ttm, Some(EARNINGS_YIELD_MIN_SCALED))
        }
    } else {
        let qb = &stock.statements.quarter_balance.items;
        let ai = &stock.statements.annual_income.items;
        if qb.len() == 0 || ai.len() == 0 {
            false
        } else {
            match (qb[0].long_term_debt, ai[0].net_income) {
                (Some(ltd), Some(ni)) => !((ltd as i128) > (ni as i128) * 5),
                _ => false,
            }
        }
    }
}

/// Evaluates the whole screen over already-ensured data.
pub fn is_buffetology_stock(stock: &Stock) -> (r: bool)
    ensures
        r == spec_is_buffetology(*stock),
{
    let mut step: usize = 1;
    while step <= 7
        invariant
            1 <= step <= 8,
            forall|k: int| 1 <= k < step ==> spec_step_pass(*stock, k),
        decreases 8 - step,
    {
        if !check_step(stock, step) {
            return false;
        }
        step = step + 1;
    }
    true
}

/// The first step the screen rejects `stock` at, or `None` when every
/// step passes.
pub fn first_failing_step(stock: &Stock) -> (r: Option<usize>)
    ensures
        match r {
            Some(k) => 1 <= k <= 7 && !spec_step_pass(*stock, k as int) && forall|j: int|
                1 <= j < k ==> spec_step_pass(*stock, j),
            None => spec_is_buffetology(*stock),
        },
{
    let mut step: usize = 1;
    while step <= 7
        invariant
            1 <= step <= 8,
            forall|k: int| 1 <= k < step ==> spec_step_pass(*stock, k),
        decreases 8 - step,
    {
        if !check_step(stock, step) {
            return Some(step);
        }
        step = step + 1;
    }
    None
}

/// Whether the symbol directory entry is screened at all: common stock on
/// one of the two major exchanges.
pub open spec fn spec_wanted(a: AvailableTraded) -> bool {
    &&& a.type_@ == "stock"@
    &&& (a.exchange_short_name@ == "NYSE"@ || a.exchange_short_name@ == "NASDAQ"@)
}

/// The directory entries the screen keeps, in order.
pub open spec fn wanted_seq(syms: Seq<AvailableTraded>) -> Seq<AvailableTraded>
    decreases syms.len(),
{
    if syms.len() == 0 {
        Seq::empty()
    } else {
        wanted_seq(syms.drop_last()) + if spec_wanted(syms.last()) {
            seq![syms.last()]
        } else {
            Seq::empty()
        }
    }
}

fn symbol_wanted(a: &AvailableTraded) -> (r: bool)
    ensures
        r == spec_wanted(*a),
{
    let is_stock = a.type_ == String::from_str("stock");
    let on_exchange = a.exchange_short_name == String::from_str("NYSE")
        || a.exchange_short_name == String::from_str("NASDAQ");
    is_stock && on_exchange
}

/// The indexes the screen's candidate list holds after the pass over
/// `cache.stocks`' records for the wanted symbols: one index per wanted
/// symbol, in directory order, each naming the record for that symbol.
pub open spec fn candidates_post(
    stocks: Seq<Stock>,
    syms: Seq<AvailableTraded>,
    out: Seq<usize>,
) -> bool {
    &&& out.len() == wanted_seq(syms).len()
    &&& forall|k: int|
        0 <= k < out.len() ==> (#[trigger] out[k]) < stocks.len() && stocks[out[k] as int].ticker@
            == wanted_seq(syms)[k].symbol@
}

/// The screen's candidate list and evaluation loop.
pub struct Screener {
    pub stocks_to_screen: Vec<usize>,
}

impl Screener {
    /// A screener with an empty candidate list.
    pub fn new() -> (r: Self)
        ensures
            r.stocks_to_screen@.len() == 0,
    {
        Self { stocks_to_screen: Vec::new() }
    }

    /// Filters the symbol directory down to common stock on the two
    /// major exchanges and creates (or finds) a cache record for each,
    /// returning the records' positions in directory order.
    pub fn symbols_to_stocks(cache: &mut SymbolCache, symbols: &Vec<AvailableTraded>) -> (r: Vec<
        usize,
    >)
        requires
            cache_wf(old(cache).stocks@),
            tickers_unique(old(cache).stocks@),
            old(cache).stocks@.len() + symbols@.len() < usize::MAX,
        ensures
            cache_wf(final(cache).stocks@),
            tickers_unique(final(cache).stocks@),
            final(cache).stocks@.len() <= old(cache).stocks@.len() + symbols@.len(),
            candidates_post(final(cache).stocks@, symbols@, r@),
    {
        let ghost syms = symbols@;
        let mut out: Vec<usize> = Vec::new();
        let n = symbols.len();
        let mut i: usize = 0;
        while i < n
            invariant
                0 <= i <= n,
                n == syms.len(),
                syms == symbols@,
                old(cache).stocks@.len() + n < usize::MAX,
                cache_wf(cache.stocks@),
                tickers_unique(cache.stocks@),
                cache.stocks@.len() <= old(cache).stocks@.len() + i,
                candidates_post(cache.stocks@, syms.take(i as int), out@),
            decreases n - i,
        {
            let ghost pre = cache.stocks@;
            let ghost out_pre = out@;
            let sym = &symbols[i];
            if symbol_wanted(sym) {
                let idx = cache.get_or_add_stock(sym.symbol.clone());
                proof {
                    crate::cache::lemma_get_or_create_preserves_wf(
                        pre,
                        cache.stocks@,
                        sym.symbol@,
                        idx as int,
                    );
                }
                out.push(idx);
                proof {
                    let post = cache.stocks@;
                    assert(get_or_create_post(pre, post, sym.symbol@, idx as int));
                    assert(idx < post.len());
                    assert(post[idx as int].ticker@ == sym.symbol@);
                    assert(forall|j: int|
                        0 <= j < pre.len() ==> (#[trigger] post[j]) == pre[j]);
                    assert(syms.take(i + 1).drop_last() =~= syms.take(i as int));
                    assert(syms.take(i + 1).last() == syms[i as int]);
                    assert(wanted_seq(syms.take(i + 1)) =~= wanted_seq(syms.take(i as int))
                        + seq![syms[i as int]]);
                }
            } else {
                proof {
                    assert(syms.take(i + 1).drop_last() =~= syms.take(i as int));
                    assert(syms.take(i + 1).last() == syms[i as int]);
                    assert(wanted_seq(syms.take(i + 1)) =~= wanted_seq(syms.take(i as int)));
                }
            }
            i = i + 1;
        }
        proof {
            assert(syms.take(n as int) =~= syms);
        }
        out
    }

    /// Builds the candidate list from the symbol directory.
    pub fn init_screen(&mut self, cache: &mut SymbolCache, symbols: &Vec<AvailableTraded>)
        requires
            cache_wf(old(cache).stocks@),
            tickers_unique(old(cache).stocks@),
            old(cache).stocks@.len() + symbols@.len() < usize::MAX,
        ensures
            cache_wf(final(cache).stocks@),
            tickers_unique(final(cache).stocks@),
            final(cache).stocks@.len() <= old(cache).stocks@.len() + symbols@.len(),
            candidates_post(final(cache).stocks@, symbols@, final(self).stocks_to_screen@),
    {
        self.stocks_to_screen = Screener::symbols_to_stocks(cache, symbols);
    }

    /// The candidate indexes that pass the screen, in candidate order.
    pub open spec fn spec_passed(stocks: Seq<Stock>, idxs: Seq<usize>) -> Seq<usize>
        decreases idxs.len(),
    {
        if idxs.len() == 0 {
            Seq::empty()
        } else {
            Self::spec_passed(stocks, idxs.drop_last()) + if idxs.last() < stocks.len()
                && spec_is_buffetology(stocks[idxs.last() as int]) {
                seq![idxs.last()]
            } else {
                Seq::empty()
            }
        }
    }

    /// Evaluates the screen over every candidate's already-ensured data
    /// and returns the indexes that pass, in order.
    pub fn buffetology_screener(&self, cache: &SymbolCache) -> (passed: Vec<usize>)
        requires
            forall|k: int|
                0 <= k < self.stocks_to_screen@.len() ==> (#[trigger] self.stocks_to_screen@[k])
                    < cache.stocks@.len(),
        ensures
            passed@ =~= Self::spec_passed(cache.stocks@, self.stocks_to_screen@),
    {
        let ghost idxs = self.stocks_to_screen@;
        let mut passed: Vec<usize> = Vec::new();
        let n = self.stocks_to_screen.len();
        let mut i: usize = 0;
        while i < n
            invariant
                0 <= i <= n,
                n == idxs.len(),
                idxs == self.stocks_to_screen@,
                forall|k: int| 0 <= k < idxs.len() ==> (#[trigger] idxs[k]) < cache.stocks@.len(),
                passed@ =~= Self::spec_passed(cache.stocks@, idxs.take(i as int)),
            decreases n - i,
        {
            let idx = self.stocks_to_screen[i];
            if is_buffetology_stock(&cache.stocks[idx]) {
                passed.push(idx);
            }
            proof {
                assert(idxs.take(i + 1).drop_last() =~= idxs.take(i as int));
                assert(idxs.take(i + 1).last() == idxs[i as int]);
            }
            i = i + 1;
        }
        proof {
            assert(idxs.take(n as int) =~= idxs);
        }
        passed
    }
}

} // verus!
