//! The persisted form of the cache: a JSON array with one element per
//! record, encoded and decoded entirely by this module, with a proved
//! round trip (see [`lemma_cache_round_trip`]).
//!
//! The layout is positional: a record is the JSON array of its fields in
//! declaration order (`null` for an absent value), a slice is
//! `[[record, ...], lastPullLength, lastPullDate]`, and a cache entry is
//! `[cacheIndex, "ticker", [statement slices], [metric slices],
//! [profile slices]]`.  Tickers are JSON strings with `"` and `\`
//! escaped.  The decoder accepts exactly this layout and rejects
//! quarterly income amounts too large for trailing-twelve-month sums, so
//! a decoded cache is always fit for synthesis.

use vstd::prelude::*;

use crate::helper_structs::{
    AdvancedLeveredDiscountedCashFlow, BalanceSheetStatement, CashFlowStatement, FetchStats,
    IncomeStatement, KeyMetrics, KeyMetricsTTM, Profile, Ratios, RatiosTTM, StatementSlice,
};
use crate::metrics::Metrics;
use crate::other::Other;
use crate::statements::Statements;
use crate::stock::Stock;

verus! {

// ---------------------------------------------------------------------
// Mathematical models of the cached types: `Vec` becomes `Seq`, `String`
// becomes `Seq<char>`; everything else is already plain data.
// ---------------------------------------------------------------------

/// A slice, abstractly: its records and its provenance.
#[verifier::reject_recursive_types(T)]
pub struct SliceModel<T> {
    pub items: Seq<T>,
    pub stats: FetchStats,
}

/// A statement store, abstractly.
pub struct StatementsModel {
    pub annual_income: SliceModel<IncomeStatement>,
    pub quarter_income: SliceModel<IncomeStatement>,
    pub ttm_income: SliceModel<IncomeStatement>,
    pub annual_balance: SliceModel<BalanceSheetStatement>,
    pub quarter_balance: SliceModel<BalanceSheetStatement>,
    pub annual_cash: SliceModel<CashFlowStatement>,
    pub quarter_cash: SliceModel<CashFlowStatement>,
}

/// A metric store, abstractly.
pub struct MetricsModel {
    pub annual_ratios: SliceModel<Ratios>,
    pub quarter_ratios: SliceModel<Ratios>,
    pub ttm_ratios: SliceModel<RatiosTTM>,
    pub annual_key_metrics: SliceModel<KeyMetrics>,
    pub quarter_key_metrics: SliceModel<KeyMetrics>,
    pub ttm_key_metrics: SliceModel<KeyMetricsTTM>,
}

/// A profile store, abstractly.
pub struct OtherModel {
    pub profile: SliceModel<Profile>,
    pub dcf: SliceModel<AdvancedLeveredDiscountedCashFlow>,
}

/// A cache record, abstractly.
pub struct StockModel {
    pub cache_index: Option<usize>,
    pub ticker: Seq<char>,
    pub statements: StatementsModel,
    pub metrics: MetricsModel,
    pub other: OtherModel,
}

/// The abstract value of a slice.
pub open spec fn slice_model<T>(sl: StatementSlice<T>) -> SliceModel<T> {
    SliceModel { items: sl.items@, stats: sl.stats }
}

/// The abstract value of a statement store.
pub open spec fn statements_model(s: Statements) -> StatementsModel {
    StatementsModel {
        annual_income: slice_model(s.annual_income),
        quarter_income: slice_model(s.quarter_income),
        ttm_income: slice_model(s.ttm_income),
        annual_balance: slice_model(s.annual_balance),
        quarter_balance: slice_model(s.quarter_balance),
        annual_cash: slice_model(s.annual_cash),
        quarter_cash: slice_model(s.quarter_cash),
    }
}

/// The abstract value of a metric store.
pub open spec fn metrics_model(m: Metrics) -> MetricsModel {
    MetricsModel {
        annual_ratios: slice_model(m.annual_ratios),
        quarter_ratios: slice_model(m.quarter_ratios),
        ttm_ratios: slice_model(m.ttm_ratios),
        annual_key_metrics: slice_model(m.annual_key_metrics),
        quarter_key_metrics: slice_model(m.quarter_key_metrics),
        ttm_key_metrics: slice_model(m.ttm_key_metrics),
    }
}

/// The abstract value of a profile store.
pub open spec fn other_model(o: Other) -> OtherModel {
    OtherModel { profile: slice_model(o.profile), dcf: slice_model(o.dcf) }
}

/// The abstract value of a cache record.
pub open spec fn stock_model(s: Stock) -> StockModel {
    StockModel {
        cache_index: s.cache_index,
        ticker: s.ticker@,
        statements: statements_model(s.statements),
        metrics: metrics_model(s.metrics),
        other: other_model(s.other),
    }
}

/// The abstract value of a whole cache.
pub open spec fn cache_model(stocks: Seq<Stock>) -> Seq<StockModel> {
    stocks.map_values(|s: Stock| stock_model(s))
}

// ---------------------------------------------------------------------
// Field layouts: each record type as its ordered field list.
// ---------------------------------------------------------------------

/// Income-statement fields in persisted order.
pub open spec fn income_fields(r: IncomeStatement) -> Seq<Option<i64>> {
    seq![
        r.date,
        r.revenue,
        r.cost_of_revenue,
        r.gross_profit,
        r.gross_profit_ratio,
        r.operating_income,
        r.income_before_tax,
        r.income_tax_expense,
        r.net_income,
        r.net_income_ratio,
        r.eps,
    ]
}

/// Balance-sheet fields in persisted order.
pub open spec fn balance_fields(r: BalanceSheetStatement) -> Seq<Option<i64>> {
    seq![
        r.date,
        r.total_assets,
        r.total_liabilities,
        r.total_stockholders_equity,
        r.long_term_debt,
        r.total_debt,
    ]
}

/// Cash-flow fields in persisted order.
pub open spec fn cash_fields(r: CashFlowStatement) -> Seq<Option<i64>> {
    seq![r.date, r.net_income, r.operating_cash_flow, r.capital_expenditure, r.free_cash_flow]
}

/// Ratio fields in persisted order.
pub open spec fn ratios_fields(r: Ratios) -> Seq<Option<i64>> {
    seq![r.date, r.current_ratio, r.return_on_assets, r.return_on_equity, r.debt_equity_ratio]
}

/// Trailing-twelve-month ratio fields in persisted order.
pub open spec fn ratios_ttm_fields(r: RatiosTTM) -> Seq<Option<i64>> {
    seq![r.pe_ratio_ttm, r.return_on_equity_ttm, r.dividend_yield_ttm]
}

/// Key-metric fields in persisted order.
pub open spec fn key_metrics_fields(r: KeyMetrics) -> Seq<Option<i64>> {
    seq![r.date, r.market_cap, r.pe_ratio, r.earnings_yield, r.roic, r.roe]
}

/// Trailing-twelve-month key-metric fields in persisted order.
pub open spec fn key_metrics_ttm_fields(r: KeyMetricsTTM) -> Seq<Option<i64>> {
    seq![r.market_cap_ttm, r.pe_ratio_ttm, r.earnings_yield_ttm, r.roic_ttm]
}

/// Profile fields in persisted order.
pub open spec fn profile_fields(r: Profile) -> Seq<Option<i64>> {
    seq![r.price, r.beta, r.vol_avg, r.mkt_cap, r.last_div, r.changes, r.dcf_diff, r.dcf]
}

/// Discounted-cash-flow fields in persisted order.
pub open spec fn dcf_fields(r: AdvancedLeveredDiscountedCashFlow) -> Seq<Option<i64>> {
    seq![r.equity_value, r.equity_value_per_share]
}

// ---------------------------------------------------------------------
// Specification of the encoding, character by character.
// ---------------------------------------------------------------------

/// The decimal digit character for `d` (0 through 9).
pub open spec fn dchar(d: int) -> char {
    if d == 0 {
        '0'
    } else if d == 1 {
        '1'
    } else if d == 2 {
        '2'
    } else if d == 3 {
        '3'
    } else if d == 4 {
        '4'
    } else if d == 5 {
        '5'
    } else if d == 6 {
        '6'
    } else if d == 7 {
        '7'
    } else if d == 8 {
        '8'
    } else {
        '9'
    }
}

/// Decimal digits of `n`, most significant first.
pub open spec fn enc_nat(n: nat) -> Seq<char>
    decreases n,
{
    if n < 10 {
        seq![dchar(n as int)]
    } else {
        enc_nat(n / 10) + seq![dchar((n % 10) as int)]
    }
}

/// A signed decimal integer.
pub open spec fn enc_int(v: int) -> Seq<char> {
    if v < 0 {
        seq!['-'] + enc_nat((-v) as nat)
    } else {
        enc_nat(v as nat)
    }
}

/// The keyword standing for an absent value.
pub open spec fn null_seq() -> Seq<char> {
    seq!['n', 'u', 'l', 'l']
}

/// An optional integer: `null` or its decimal form.
pub open spec fn enc_opt(o: Option<i64>) -> Seq<char> {
    match o {
        None => null_seq(),
        Some(v) => enc_int(v as int),
    }
}

/// An optional cache position: `null` or its decimal form.
pub open spec fn enc_ci(o: Option<usize>) -> Seq<char> {
    match o {
        None => null_seq(),
        Some(u) => enc_nat(u as nat),
    }
}

/// One ticker character, escaped when it would end the string.
pub open spec fn esc1(c: char) -> Seq<char> {
    if c == '"' || c == '\\' {
        seq!['\\', c]
    } else {
        seq![c]
    }
}

/// A ticker's characters, escaped.
pub open spec fn esc(s: Seq<char>) -> Seq<char>
    decreases s.len(),
{
    if s.len() == 0 {
        Seq::empty()
    } else {
        esc1(s[0]) + esc(s.drop_first())
    }
}

/// A quoted, escaped string.
pub open spec fn enc_str(s: Seq<char>) -> Seq<char> {
    seq!['"'] + esc(s) + seq!['"']
}

/// Comma-separated optional integers.
pub open spec fn enc_opts(fs: Seq<Option<i64>>) -> Seq<char>
    decreases fs.len(),
{
    if fs.len() == 0 {
        Seq::empty()
    } else if fs.len() == 1 {
        enc_opt(fs[0])
    } else {
        enc_opt(fs[0]) + seq![','] + enc_opts(fs.drop_first())
    }
}

/// One record: its field list in brackets.
pub open spec fn enc_rec(fs: Seq<Option<i64>>) -> Seq<char> {
    seq!['['] + enc_opts(fs) + seq![']']
}

/// Comma-separated records.
pub open spec fn enc_recs(rs: Seq<Seq<Option<i64>>>) -> Seq<char>
    decreases rs.len(),
{
    if rs.len() == 0 {
        Seq::empty()
    } else if rs.len() == 1 {
        enc_rec(rs[0])
    } else {
        enc_rec(rs[0]) + seq![','] + enc_recs(rs.drop_first())
    }
}

/// A record list in brackets.
pub open spec fn enc_rec_arr(rs: Seq<Seq<Option<i64>>>) -> Seq<char> {
    seq!['['] + enc_recs(rs) + seq![']']
}

/// One slice: its records, then its provenance.
pub open spec fn enc_slice_raw(rs: Seq<Seq<Option<i64>>>, lpl: nat, lpt: Option<i64>) -> Seq<char> {
    seq!['['] + enc_rec_arr(rs) + seq![','] + enc_nat(lpl) + seq![','] + enc_opt(lpt) + seq![']']
}

/// One slice of records of any kind, through its field layout `conv`.
pub open spec fn enc_slice<T>(m: SliceModel<T>, conv: spec_fn(T) -> Seq<Option<i64>>) -> Seq<char> {
    enc_slice_raw(m.items.map_values(conv), m.stats.last_pull_length as nat, m.stats.last_pull_time)
}

/// A statement store: its seven slices in a fixed order.
#[verifier::opaque]
pub open spec fn enc_statements(m: StatementsModel) -> Seq<char> {
    seq!['['] + enc_slice(m.annual_income, |r: IncomeStatement| income_fields(r)) + seq![',']
        + enc_slice(m.quarter_income, |r: IncomeStatement| income_fields(r)) + seq![',']
        + enc_slice(m.ttm_income, |r: IncomeStatement| income_fields(r)) + seq![','] + enc_slice(
        m.annual_balance,
        |r: BalanceSheetStatement| balance_fields(r),
    ) + seq![','] + enc_slice(m.quarter_balance, |r: BalanceSheetStatement| balance_fields(r))
        + seq![','] + enc_slice(m.annual_cash, |r: CashFlowStatement| cash_fields(r)) + seq![',']
        + enc_slice(m.quarter_cash, |r: CashFlowStatement| cash_fields(r)) + seq![']']
}

/// A metric store: its six slices in a fixed order.
#[verifier::opaque]
pub open spec fn enc_metrics(m: MetricsModel) -> Seq<char> {
    seq!['['] + enc_slice(m.annual_ratios, |r: Ratios| ratios_fields(r)) + seq![','] + enc_slice(
        m.quarter_ratios,
        |r: Ratios| ratios_fields(r),
    ) + seq![','] + enc_slice(m.ttm_ratios, |r: RatiosTTM| ratios_ttm_fields(r)) + seq![',']
        + enc_slice(m.annual_key_metrics, |r: KeyMetrics| key_metrics_fields(r)) + seq![',']
        + enc_slice(m.quarter_key_metrics, |r: KeyMetrics| key_metrics_fields(r)) + seq![',']
        + enc_slice(m.ttm_key_metrics, |r: KeyMetricsTTM| key_metrics_ttm_fields(r)) + seq![']']
}

/// A profile store: its two slices.
#[verifier::opaque]
pub open spec fn enc_other(m: OtherModel) -> Seq<char> {
    seq!['['] + enc_slice(m.profile, |r: Profile| profile_fields(r)) + seq![','] + enc_slice(
        m.dcf,
        |r: AdvancedLeveredDiscountedCashFlow| dcf_fields(r),
    ) + seq![']']
}

/// One cache record: position, ticker, and the three stores.
#[verifier::opaque]
pub open spec fn enc_stock(m: StockModel) -> Seq<char> {
    seq!['['] + enc_ci(m.cache_index) + seq![','] + enc_str(m.ticker) + seq![','] + enc_statements(
        m.statements,
    ) + seq![','] + enc_metrics(m.metrics) + seq![','] + enc_other(m.other) + seq![']']
}

/// Comma-separated cache records.
pub open spec fn enc_stocks(ms: Seq<StockModel>) -> Seq<char>
    decreases ms.len(),
{
    if ms.len() == 0 {
        Seq::empty()
    } else if ms.len() == 1 {
        enc_stock(ms[0])
    } else {
        enc_stock(ms[0]) + seq![','] + enc_stocks(ms.drop_first())
    }
}

/// The whole cache: its records in brackets.
pub open spec fn enc_cache(ms: Seq<StockModel>) -> Seq<char> {
    seq!['['] + enc_stocks(ms) + seq![']']
}

// ---------------------------------------------------------------------
// The encoder.
// ---------------------------------------------------------------------

fn digit_char(d: u64) -> (c: char)
    requires
        d < 10,
    ensures
        c == dchar(d as int),
{
    if d == 0 {
        '0'
    } else if d == 1 {
        '1'
    } else if d == 2 {
        '2'
    } else if d == 3 {
        '3'
    } else if d == 4 {
        '4'
    } else if d == 5 {
        '5'
    } else if d == 6 {
        '6'
    } else if d == 7 {
        '7'
    } else if d == 8 {
        '8'
    } else {
        '9'
    }
}

fn push_nat(out: &mut Vec<char>, n: u64)
    ensures
        final(out)@ == old(out)@ + enc_nat(n as nat),
    decreases n,
{
    if n < 10 {
        out.push(digit_char(n));
    } else {
        push_nat(out, n / 10);
        out.push(digit_char(n % 10));
    }
}

fn push_int(out: &mut Vec<char>, v: i64)
    ensures
        final(out)@ == old(out)@ + enc_int(v as int),
{
    if v < 0 {
        out.push('-');
        let m: u64 = (-(v as i128)) as u64;
        assert(m as nat == (-(v as int)) as nat);
        push_nat(out, m);
    } else {
        push_nat(out, v as u64);
    }
}

fn push_null(out: &mut Vec<char>)
    ensures
        final(out)@ == old(out)@ + null_seq(),
{
    out.push('n');
    out.push('u');
    out.push('l');
    out.push('l');
    assert(out@ =~= old(out)@ + null_seq());
}

fn push_opt(out: &mut Vec<char>, o: Option<i64>)
    ensures
        final(out)@ == old(out)@ + enc_opt(o),
{
    match o {
        None => push_null(out),
        Some(v) => push_int(out, v),
    }
}

fn push_ci(out: &mut Vec<char>, o: Option<usize>)
    ensures
        final(out)@ == old(out)@ + enc_ci(o),
{
    match o {
        None => push_null(out),
        Some(u) => {
            push_nat(out, u as u64);
        },
    }
}

proof fn lemma_esc_push(s: Seq<char>, c: char)
    ensures
        esc(s.push(c)) == esc(s) + esc1(c),
    decreases s.len(),
{
    if s.len() == 0 {
        let t = s.push(c);
        assert(t[0] == c);
        assert(t.drop_first() =~= Seq::<char>::empty());
        assert(esc(t.drop_first()) =~= Seq::<char>::empty());
        assert(esc(t) =~= esc1(c) + esc(t.drop_first()));
        assert(esc(s) =~= Seq::<char>::empty());
        assert(esc(s.push(c)) =~= esc(s) + esc1(c));
    } else {
        assert(s.push(c)[0] == s[0]);
        assert(s.push(c).drop_first() =~= s.drop_first().push(c));
        lemma_esc_push(s.drop_first(), c);
        assert(esc(s.push(c)) == esc1(s[0]) + (esc(s.drop_first()) + esc1(c)));
        assert(esc1(s[0]) + (esc(s.drop_first()) + esc1(c)) =~= (esc1(s[0]) + esc(s.drop_first()))
            + esc1(c));
    }
}

fn push_str(out: &mut Vec<char>, t: &String)
    ensures
        final(out)@ == old(out)@ + enc_str(t@),
{
    let ghost base = out@;
    out.push('"');
    let ts = t.as_str();
    let n = ts.unicode_len();
    let mut j: usize = 0;
    while j < n
        invariant
            0 <= j <= n,
            n == ts@.len(),
            ts@ == t@,
            out@ == base + seq!['"'] + esc(t@.take(j as int)),
        decreases n - j,
    {
        let c = ts.get_char(j);
        if c == '"' || c == '\\' {
            out.push('\\');
        }
        out.push(c);
        proof {
            assert(t@.take(j + 1) =~= t@.take(j as int).push(t@[j as int]));
            lemma_esc_push(t@.take(j as int), t@[j as int]);
            if c == '"' || c == '\\' {
                assert(out@ =~= base + seq!['"'] + esc(t@.take(j as int)) + seq!['\\', c]);
            }
            assert(out@ =~= base + seq!['"'] + esc(t@.take(j + 1)));
        }
        j = j + 1;
    }
    out.push('"');
    proof {
        assert(t@.take(n as int) =~= t@);
        assert(out@ =~= base + enc_str(t@));
    }
}

fn push_opts(out: &mut Vec<char>, fs: &Vec<Option<i64>>, k: usize)
    requires
        k <= fs@.len(),
    ensures
        final(out)@ == old(out)@ + enc_opts(fs@.skip(k as int)),
    decreases fs@.len() - k,
{
    let ghost tail = fs@.skip(k as int);
    if k < fs.len() {
        push_opt(out, fs[k]);
        proof {
            assert(tail[0] == fs@[k as int]);
        }
        if k + 1 < fs.len() {
            out.push(',');
            push_opts(out, fs, k + 1);
            proof {
                assert(tail.drop_first() =~= fs@.skip(k + 1));
                assert(tail.len() > 1);
            }
        } else {
            proof {
                assert(tail.len() == 1);
            }
        }
    } else {
        proof {
            assert(tail.len() == 0);
        }
    }
}

fn push_rec(out: &mut Vec<char>, fs: &Vec<Option<i64>>)
    ensures
        final(out)@ == old(out)@ + enc_rec(fs@),
{
    out.push('[');
    push_opts(out, fs, 0);
    out.push(']');
    proof {
        assert(fs@.skip(0) =~= fs@);
        assert(out@ =~= old(out)@ + enc_rec(fs@));
    }
}

fn fields_of_income(r: &IncomeStatement) -> (v: Vec<Option<i64>>)
    ensures
        v@ =~= income_fields(*r),
{
    let mut v: Vec<Option<i64>> = Vec::new();
    v.push(r.date);
    v.push(r.revenue);
    v.push(r.cost_of_revenue);
    v.push(r.gross_profit);
    v.push(r.gross_profit_ratio);
    v.push(r.operating_income);
    v.push(r.income_before_tax);
    v.push(r.income_tax_expense);
    v.push(r.net_income);
    v.push(r.net_income_ratio);
    v.push(r.eps);
    v
}

fn fields_of_balance(r: &BalanceSheetStatement) -> (v: Vec<Option<i64>>)
    ensures
        v@ =~= balance_fields(*r),
{
    let mut v: Vec<Option<i64>> = Vec::new();
    v.push(r.date);
    v.push(r.total_assets);
    v.push(r.total_liabilities);
    v.push(r.total_stockholders_equity);
    v.push(r.long_term_debt);
    v.push(r.total_debt);
    v
}

fn fields_of_cash(r: &CashFlowStatement) -> (v: Vec<Option<i64>>)
    ensures
        v@ =~= cash_fields(*r),
{
    let mut v: Vec<Option<i64>> = Vec::new();
    v.push(r.date);
    v.push(r.net_income);
    v.push(r.operating_cash_flow);
    v.push(r.capital_expenditure);
    v.push(r.free_cash_flow);
    v
}

fn fields_of_ratios(r: &Ratios) -> (v: Vec<Option<i64>>)
    ensures
        v@ =~= ratios_fields(*r),
{
    let mut v: Vec<Option<i64>> = Vec::new();
    v.push(r.date);
    v.push(r.current_ratio);
    v.push(r.return_on_assets);
    v.push(r.return_on_equity);
    v.push(r.debt_equity_ratio);
    v
}

fn fields_of_ratios_ttm(r: &RatiosTTM) -> (v: Vec<Option<i64>>)
    ensures
        v@ =~= ratios_ttm_fields(*r),
{
    let mut v: Vec<Option<i64>> = Vec::new();
    v.push(r.pe_ratio_ttm);
    v.push(r.return_on_equity_ttm);
    v.push(r.dividend_yield_ttm);
    v
}

fn fields_of_key_metrics(r: &KeyMetrics) -> (v: Vec<Option<i64>>)
    ensures
        v@ =~= key_metrics_fields(*r),
{
    let mut v: Vec<Option<i64>> = Vec::new();
    v.push(r.date);
    v.push(r.market_cap);
    v.push(r.pe_ratio);
    v.push(r.earnings_yield);
    v.push(r.roic);
    v.push(r.roe);
    v
}

fn fields_of_key_metrics_ttm(r: &KeyMetricsTTM) -> (v: Vec<Option<i64>>)
    ensures
        v@ =~= key_metrics_ttm_fields(*r),
{
    let mut v: Vec<Option<i64>> = Vec::new();
    v.push(r.market_cap_ttm);
    v.push(r.pe_ratio_ttm);
    v.push(r.earnings_yield_ttm);
    v.push(r.roic_ttm);
    v
}

fn fields_of_profile(r: &Profile) -> (v: Vec<Option<i64>>)
    ensures
        v@ =~= profile_fields(*r),
{
    let mut v: Vec<Option<i64>> = Vec::new();
    v.push(r.price);
    v.push(r.beta);
    v.push(r.vol_avg);
    v.push(r.mkt_cap);
    v.push(r.last_div);
    v.push(r.changes);
    v.push(r.dcf_diff);
    v.push(r.dcf);
    v
}

fn fields_of_dcf(r: &AdvancedLeveredDiscountedCashFlow) -> (v: Vec<Option<i64>>)
    ensures
        v@ =~= dcf_fields(*r),
{
    let mut v: Vec<Option<i64>> = Vec::new();
    v.push(r.equity_value);
    v.push(r.equity_value_per_share);
    v
}

fn push_income_items(out: &mut Vec<char>, items: &Vec<IncomeStatement>, k: usize)
    requires
        k <= items@.len(),
    ensures
        final(out)@ == old(out)@ + enc_recs(
            items@.skip(k as int).map_values(|r: IncomeStatement| income_fields(r)),
        ),
    decreases items@.len() - k,
{
    let ghost m = items@.skip(k as int).map_values(|r: IncomeStatement| income_fields(r));
    if k < items.len() {
        let fs = fields_of_income(&items[k]);
        push_rec(out, &fs);
        proof {
            assert(m[0] == income_fields(items@[k as int]));
        }
        if k + 1 < items.len() {
            out.push(',');
            push_income_items(out, items, k + 1);
            proof {
                assert(m.drop_first() =~= items@.skip(k + 1).map_values(
                    |r: IncomeStatement| income_fields(r),
                ));
                assert(m.len() > 1);
            }
        } else {
            proof {
                assert(m.len() == 1);
            }
        }
    } else {
        proof {
            assert(m.len() == 0);
        }
    }
}

fn push_balance_items(out: &mut Vec<char>, items: &Vec<BalanceSheetStatement>, k: usize)
    requires
        k <= items@.len(),
    ensures
        final(out)@ == old(out)@ + enc_recs(
            items@.skip(k as int).map_values(|r: BalanceSheetStatement| balance_fields(r)),
        ),
    decreases items@.len() - k,
{
    let ghost m = items@.skip(k as int).map_values(|r: BalanceSheetStatement| balance_fields(r));
    if k < items.len() {
        let fs = fields_of_balance(&items[k]);
        push_rec(out, &fs);
        proof {
            assert(m[0] == balance_fields(items@[k as int]));
        }
        if k + 1 < items.len() {
            out.push(',');
            push_balance_items(out, items, k + 1);
            proof {
                assert(m.drop_first() =~= items@.skip(k + 1).map_values(
                    |r: BalanceSheetStatement| balance_fields(r),
                ));
                assert(m.len() > 1);
            }
        } else {
            proof {
                assert(m.len() == 1);
            }
        }
    } else {
        proof {
            assert(m.len() == 0);
        }
    }
}

fn push_cash_items(out: &mut Vec<char>, items: &Vec<CashFlowStatement>, k: usize)
    requires
        k <= items@.len(),
    ensures
        final(out)@ == old(out)@ + enc_recs(
            items@.skip(k as int).map_values(|r: CashFlowStatement| cash_fields(r)),
        ),
    decreases items@.len() - k,
{
    let ghost m = items@.skip(k as int).map_values(|r: CashFlowStatement| cash_fields(r));
    if k < items.len() {
        let fs = fields_of_cash(&items[k]);
        push_rec(out, &fs);
        proof {
            assert(m[0] == cash_fields(items@[k as int]));
        }
        if k + 1 < items.len() {
            out.push(',');
            push_cash_items(out, items, k + 1);
            proof {
                assert(m.drop_first() =~= items@.skip(k + 1).map_values(
                    |r: CashFlowStatement| cash_fields(r),
                ));
                assert(m.len() > 1);
            }
        } else {
            proof {
                assert(m.len() == 1);
            }
        }
    } else {
        proof {
            assert(m.len() == 0);
        }
    }
}

fn push_ratios_items(out: &mut Vec<char>, items: &Vec<Ratios>, k: usize)
    requires
        k <= items@.len(),
    ensures
        final(out)@ == old(out)@ + enc_recs(
            items@.skip(k as int).map_values(|r: Ratios| ratios_fields(r)),
        ),
    decreases items@.len() - k,
{
    let ghost m = items@.skip(k as int).map_values(|r: Ratios| ratios_fields(r));
    if k < items.len() {
        let fs = fields_of_ratios(&items[k]);
        push_rec(out, &fs);
        proof {
            assert(m[0] == ratios_fields(items@[k as int]));
        }
        if k + 1 < items.len() {
            out.push(',');
            push_ratios_items(out, items, k + 1);
            proof {
                assert(m.drop_first() =~= items@.skip(k + 1).map_values(
                    |r: Ratios| ratios_fields(r),
                ));
                assert(m.len() > 1);
            }
        } else {
            proof {
                assert(m.len() == 1);
            }
        }
    } else {
        proof {
            assert(m.len() == 0);
        }
    }
}

fn push_ratios_ttm_items(out: &mut Vec<char>, items: &Vec<RatiosTTM>, k: usize)
    requires
        k <= items@.len(),
    ensures
        final(out)@ == old(out)@ + enc_recs(
            items@.skip(k as int).map_values(|r: RatiosTTM| ratios_ttm_fields(r)),
        ),
    decreases items@.len() - k,
{
    let ghost m = items@.skip(k as int).map_values(|r: RatiosTTM| ratios_ttm_fields(r));
    if k < items.len() {
        let fs = fields_of_ratios_ttm(&items[k]);
        push_rec(out, &fs);
        proof {
            assert(m[0] == ratios_ttm_fields(items@[k as int]));
        }
        if k + 1 < items.len() {
            out.push(',');
            push_ratios_ttm_items(out, items, k + 1);
            proof {
                assert(m.drop_first() =~= items@.skip(k + 1).map_values(
                    |r: RatiosTTM| ratios_ttm_fields(r),
                ));
                assert(m.len() > 1);
            }
        } else {
            proof {
                assert(m.len() == 1);
            }
        }
    } else {
        proof {
            assert(m.len() == 0);
        }
    }
}

fn push_key_metrics_items(out: &mut Vec<char>, items: &Vec<KeyMetrics>, k: usize)
    requires
        k <= items@.len(),
    ensures
        final(out)@ == old(out)@ + enc_recs(
            items@.skip(k as int).map_values(|r: KeyMetrics| key_metrics_fields(r)),
        ),
    decreases items@.len() - k,
{
    let ghost m = items@.skip(k as int).map_values(|r: KeyMetrics| key_metrics_fields(r));
    if k < items.len() {
        let fs = fields_of_key_metrics(&items[k]);
        push_rec(out, &fs);
        proof {
            assert(m[0] == key_metrics_fields(items@[k as int]));
        }
        if k + 1 < items.len() {
            out.push(',');
            push_key_metrics_items(out, items, k + 1);
            proof {
                assert(m.drop_first() =~= items@.skip(k + 1).map_values(
                    |r: KeyMetrics| key_metrics_fields(r),
                ));
                assert(m.len() > 1);
            }
        } else {
            proof {
                assert(m.len() == 1);
            }
        }
    } else {
        proof {
            assert(m.len() == 0);
        }
    }
}

fn push_key_metrics_ttm_items(out: &mut Vec<char>, items: &Vec<KeyMetricsTTM>, k: usize)
    requires
        k <= items@.len(),
    ensures
        final(out)@ == old(out)@ + enc_recs(
            items@.skip(k as int).map_values(|r: KeyMetricsTTM| key_metrics_ttm_fields(r)),
        ),
    decreases items@.len() - k,
{
    let ghost m = items@.skip(k as int).map_values(|r: KeyMetricsTTM| key_metrics_ttm_fields(r));
    if k < items.len() {
        let fs = fields_of_key_metrics_ttm(&items[k]);
        push_rec(out, &fs);
        proof {
            assert(m[0] == key_metrics_ttm_fields(items@[k as int]));
        }
        if k + 1 < items.len() {
            out.push(',');
            push_key_metrics_ttm_items(out, items, k + 1);
            proof {
                assert(m.drop_first() =~= items@.skip(k + 1).map_values(
                    |r: KeyMetricsTTM| key_metrics_ttm_fields(r),
                ));
                assert(m.len() > 1);
            }
        } else {
            proof {
                assert(m.len() == 1);
            }
        }
    } else {
        proof {
            assert(m.len() == 0);
        }
    }
}

fn push_profile_items(out: &mut Vec<char>, items: &Vec<Profile>, k: usize)
    requires
        k <= items@.len(),
    ensures
        final(out)@ == old(out)@ + enc_recs(
            items@.skip(k as int).map_values(|r: Profile| profile_fields(r)),
        ),
    decreases items@.len() - k,
{
    let ghost m = items@.skip(k as int).map_values(|r: Profile| profile_fields(r));
    if k < items.len() {
        let fs = fields_of_profile(&items[k]);
        push_rec(out, &fs);
        proof {
            assert(m[0] == profile_fields(items@[k as int]));
        }
        if k + 1 < items.len() {
            out.push(',');
            push_profile_items(out, items, k + 1);
            proof {
                assert(m.drop_first() =~= items@.skip(k + 1).map_values(
                    |r: Profile| profile_fields(r),
                ));
                assert(m.len() > 1);
            }
        } else {
            proof {
                assert(m.len() == 1);
            }
        }
    } else {
        proof {
            assert(m.len() == 0);
        }
    }
}

fn push_dcf_items(out: &mut Vec<char>, items: &Vec<AdvancedLeveredDiscountedCashFlow>, k: usize)
    requires
        k <= items@.len(),
    ensures
        final(out)@ == old(out)@ + enc_recs(
            items@.skip(k as int).map_values(
                |r: AdvancedLeveredDiscountedCashFlow| dcf_fields(r),
            ),
        ),
    decreases items@.len() - k,
{
    let ghost m = items@.skip(k as int).map_values(
        |r: AdvancedLeveredDiscountedCashFlow| dcf_fields(r),
    );
    if k < items.len() {
        let fs = fields_of_dcf(&items[k]);
        push_rec(out, &fs);
        proof {
            assert(m[0] == dcf_fields(items@[k as int]));
        }
        if k + 1 < items.len() {
            out.push(',');
            push_dcf_items(out, items, k + 1);
            proof {
                assert(m.drop_first() =~= items@.skip(k + 1).map_values(
                    |r: AdvancedLeveredDiscountedCashFlow| dcf_fields(r),
                ));
                assert(m.len() > 1);
            }
        } else {
            proof {
                assert(m.len() == 1);
            }
        }
    } else {
        proof {
            assert(m.len() == 0);
        }
    }
}

fn push_income_slice(out: &mut Vec<char>, sl: &StatementSlice<IncomeStatement>)
    ensures
        final(out)@ == old(out)@ + enc_slice(
            slice_model(*sl),
            |r: IncomeStatement| income_fields(r),
        ),
{
    out.push('[');
    out.push('[');
    push_income_items(out, &sl.items, 0);
    out.push(']');
    out.push(',');
    push_nat(out, sl.stats.last_pull_length as u64);
    out.push(',');
    push_opt(out, sl.stats.last_pull_time);
    out.push(']');
    proof {
        assert(sl.items@.skip(0) =~= sl.items@);
        assert(out@ =~= old(out)@ + enc_slice(
            slice_model(*sl),
            |r: IncomeStatement| income_fields(r),
        ));
    }
}

fn push_balance_slice(out: &mut Vec<char>, sl: &StatementSlice<BalanceSheetStatement>)
    ensures
        final(out)@ == old(out)@ + enc_slice(
            slice_model(*sl),
            |r: BalanceSheetStatement| balance_fields(r),
        ),
{
    out.push('[');
    out.push('[');
    push_balance_items(out, &sl.items, 0);
    out.push(']');
    out.push(',');
    push_nat(out, sl.stats.last_pull_length as u64);
    out.push(',');
    push_opt(out, sl.stats.last_pull_time);
    out.push(']');
    proof {
        assert(sl.items@.skip(0) =~= sl.items@);
        assert(out@ =~= old(out)@ + enc_slice(
            slice_model(*sl),
            |r: BalanceSheetStatement| balance_fields(r),
        ));
    }
}

fn push_cash_slice(out: &mut Vec<char>, sl: &StatementSlice<CashFlowStatement>)
    ensures
        final(out)@ == old(out)@ + enc_slice(
            slice_model(*sl),
            |r: CashFlowStatement| cash_fields(r),
        ),
{
    out.push('[');
    out.push('[');
    push_cash_items(out, &sl.items, 0);
    out.push(']');
    out.push(',');
    push_nat(out, sl.stats.last_pull_length as u64);
    out.push(',');
    push_opt(out, sl.stats.last_pull_time);
    out.push(']');
    proof {
        assert(sl.items@.skip(0) =~= sl.items@);
        assert(out@ =~= old(out)@ + enc_slice(
            slice_model(*sl),
            |r: CashFlowStatement| cash_fields(r),
        ));
    }
}

fn push_ratios_slice(out: &mut Vec<char>, sl: &StatementSlice<Ratios>)
    ensures
        final(out)@ == old(out)@ + enc_slice(slice_model(*sl), |r: Ratios| ratios_fields(r)),
{
    out.push('[');
    out.push('[');
    push_ratios_items(out, &sl.items, 0);
    out.push(']');
    out.push(',');
    push_nat(out, sl.stats.last_pull_length as u64);
    out.push(',');
    push_opt(out, sl.stats.last_pull_time);
    out.push(']');
    proof {
        assert(sl.items@.skip(0) =~= sl.items@);
        assert(out@ =~= old(out)@ + enc_slice(slice_model(*sl), |r: Ratios| ratios_fields(r)));
    }
}

fn push_ratios_ttm_slice(out: &mut Vec<char>, sl: &StatementSlice<RatiosTTM>)
    ensures
        final(out)@ == old(out)@ + enc_slice(
            slice_model(*sl),
            |r: RatiosTTM| ratios_ttm_fields(r),
        ),
{
    out.push('[');
    out.push('[');
    push_ratios_ttm_items(out, &sl.items, 0);
    out.push(']');
    out.push(',');
    push_nat(out, sl.stats.last_pull_length as u64);
    out.push(',');
    push_opt(out, sl.stats.last_pull_time);
    out.push(']');
    proof {
        assert(sl.items@.skip(0) =~= sl.items@);
        assert(out@ =~= old(out)@ + enc_slice(
            slice_model(*sl),
            |r: RatiosTTM| ratios_ttm_fields(r),
        ));
    }
}

fn push_key_metrics_slice(out: &mut Vec<char>, sl: &StatementSlice<KeyMetrics>)
    ensures
        final(out)@ == old(out)@ + enc_slice(
            slice_model(*sl),
            |r: KeyMetrics| key_metrics_fields(r),
        ),
{
    out.push('[');
    out.push('[');
    push_key_metrics_items(out, &sl.items, 0);
    out.push(']');
    out.push(',');
    push_nat(out, sl.stats.last_pull_length as u64);
    out.push(',');
    push_opt(out, sl.stats.last_pull_time);
    out.push(']');
    proof {
        assert(sl.items@.skip(0) =~= sl.items@);
        assert(out@ =~= old(out)@ + enc_slice(
            slice_model(*sl),
            |r: KeyMetrics| key_metrics_fields(r),
        ));
    }
}

fn push_key_metrics_ttm_slice(out: &mut Vec<char>, sl: &StatementSlice<KeyMetricsTTM>)
    ensures
        final(out)@ == old(out)@ + enc_slice(
            slice_model(*sl),
            |r: KeyMetricsTTM| key_metrics_ttm_fields(r),
        ),
{
    out.push('[');
    out.push('[');
    push_key_metrics_ttm_items(out, &sl.items, 0);
    out.push(']');
    out.push(',');
    push_nat(out, sl.stats.last_pull_length as u64);
    out.push(',');
    push_opt(out, sl.stats.last_pull_time);
    out.push(']');
    proof {
        assert(sl.items@.skip(0) =~= sl.items@);
        assert(out@ =~= old(out)@ + enc_slice(
            slice_model(*sl),
            |r: KeyMetricsTTM| key_metrics_ttm_fields(r),
        ));
    }
}

fn push_profile_slice(out: &mut Vec<char>, sl: &StatementSlice<Profile>)
    ensures
        final(out)@ == old(out)@ + enc_slice(slice_model(*sl), |r: Profile| profile_fields(r)),
{
    out.push('[');
    out.push('[');
    push_profile_items(out, &sl.items, 0);
    out.push(']');
    out.push(',');
    push_nat(out, sl.stats.last_pull_length as u64);
    out.push(',');
    push_opt(out, sl.stats.last_pull_time);
    out.push(']');
    proof {
        assert(sl.items@.skip(0) =~= sl.items@);
        assert(out@ =~= old(out)@ + enc_slice(slice_model(*sl), |r: Profile| profile_fields(r)));
    }
}

fn push_dcf_slice(out: &mut Vec<char>, sl: &StatementSlice<AdvancedLeveredDiscountedCashFlow>)
    ensures
        final(out)@ == old(out)@ + enc_slice(
            slice_model(*sl),
            |r: AdvancedLeveredDiscountedCashFlow| dcf_fields(r),
        ),
{
    out.push('[');
    out.push('[');
    push_dcf_items(out, &sl.items, 0);
    out.push(']');
    out.push(',');
    push_nat(out, sl.stats.last_pull_length as u64);
    out.push(',');
    push_opt(out, sl.stats.last_pull_time);
    out.push(']');
    proof {
        assert(sl.items@.skip(0) =~= sl.items@);
        assert(out@ =~= old(out)@ + enc_slice(
            slice_model(*sl),
            |r: AdvancedLeveredDiscountedCashFlow| dcf_fields(r),
        ));
    }
}

#[verifier::rlimit(100)]
#[verifier::spinoff_prover]
fn push_statements(out: &mut Vec<char>, st: &Statements)
    ensures
        final(out)@ == old(out)@ + enc_statements(statements_model(*st)),
{
    out.push('[');
    push_income_slice(out, &st.annual_income);
    out.push(',');
    push_income_slice(out, &st.quarter_income);
    out.push(',');
    push_income_slice(out, &st.ttm_income);
    out.push(',');
    push_balance_slice(out, &st.annual_balance);
    out.push(',');
    push_balance_slice(out, &st.quarter_balance);
    out.push(',');
    push_cash_slice(out, &st.annual_cash);
    out.push(',');
    push_cash_slice(out, &st.quarter_cash);
    out.push(']');
    proof {
        reveal(enc_statements);
        assert(out@ =~= old(out)@ + enc_statements(statements_model(*st)));
    }
}

#[verifier::rlimit(100)]
#[verifier::spinoff_prover]
fn push_metrics(out: &mut Vec<char>, m: &Metrics)
    ensures
        final(out)@ == old(out)@ + enc_metrics(metrics_model(*m)),
{
    out.push('[');
    push_ratios_slice(out, &m.annual_ratios);
    out.push(',');
    push_ratios_slice(out, &m.quarter_ratios);
    out.push(',');
    push_ratios_ttm_slice(out, &m.ttm_ratios);
    out.push(',');
    push_key_metrics_slice(out, &m.annual_key_metrics);
    out.push(',');
    push_key_metrics_slice(out, &m.quarter_key_metrics);
    out.push(',');
    push_key_metrics_ttm_slice(out, &m.ttm_key_metrics);
    out.push(']');
    proof {
        reveal(enc_metrics);
        assert(out@ =~= old(out)@ + enc_metrics(metrics_model(*m)));
    }
}

#[verifier::rlimit(80)]
fn push_other(out: &mut Vec<char>, o: &Other)
    ensures
        final(out)@ == old(out)@ + enc_other(other_model(*o)),
{
    out.push('[');
    push_profile_slice(out, &o.profile);
    out.push(',');
    push_dcf_slice(out, &o.dcf);
    out.push(']');
    proof {
        reveal(enc_other);
        assert(out@ =~= old(out)@ + enc_other(other_model(*o)));
    }
}

#[verifier::rlimit(100)]
#[verifier::spinoff_prover]
fn push_stock(out: &mut Vec<char>, s: &Stock)
    ensures
        final(out)@ == old(out)@ + enc_stock(stock_model(*s)),
{
    out.push('[');
    push_ci(out, s.cache_index);
    out.push(',');
    push_str(out, &s.ticker);
    out.push(',');
    push_statements(out, &s.statements);
    out.push(',');
    push_metrics(out, &s.metrics);
    out.push(',');
    push_other(out, &s.other);
    out.push(']');
    proof {
        reveal(enc_stock);
        assert(out@ =~= old(out)@ + enc_stock(stock_model(*s)));
    }
}

#[verifier::rlimit(100)]
#[verifier::spinoff_prover]
fn push_stocks(out: &mut Vec<char>, stocks: &Vec<Stock>, k: usize)
    requires
        k <= stocks@.len(),
    ensures
        final(out)@ == old(out)@ + enc_stocks(
            stocks@.skip(k as int).map_values(|s: Stock| stock_model(s)),
        ),
    decreases stocks@.len() - k,
{
    let ghost m = stocks@.skip(k as int).map_values(|s: Stock| stock_model(s));
    if k < stocks.len() {
        push_stock(out, &stocks[k]);
        proof {
            assert(m[0] == stock_model(stocks@[k as int]));
        }
        if k + 1 < stocks.len() {
            out.push(',');
            push_stocks(out, stocks, k + 1);
            proof {
                assert(m.drop_first() =~= stocks@.skip(k + 1).map_values(
                    |s: Stock| stock_model(s),
                ));
                assert(m.len() > 1);
            }
        } else {
            proof {
                assert(m.len() == 1);
            }
        }
    } else {
        proof {
            assert(m.len() == 0);
        }
    }
}

// ---------------------------------------------------------------------
// Specification of the decoder: strict recursive-descent parsers over
// the character sequence, each returning the parsed value and the
// position after it.
// ---------------------------------------------------------------------

/// The value of a decimal digit character, or -1 for any other.
pub open spec fn dval(c: char) -> int {
    if c == '0' {
        0
    } else if c == '1' {
        1
    } else if c == '2' {
        2
    } else if c == '3' {
        3
    } else if c == '4' {
        4
    } else if c == '5' {
        5
    } else if c == '6' {
        6
    } else if c == '7' {
        7
    } else if c == '8' {
        8
    } else if c == '9' {
        9
    } else {
        -1
    }
}

/// The position after the run of digits starting at `i`.
pub open spec fn digits_end(s: Seq<char>, i: int) -> int
    decreases s.len() - i
        when 0 <= i <= s.len()
{
    if i < s.len() && dval(s[i]) >= 0 {
        digits_end(s, i + 1)
    } else {
        i
    }
}

/// The value of the digits from `i` up to `e`.
pub open spec fn fold_digits(s: Seq<char>, i: int, e: int) -> int
    decreases e - i
        when i <= e
{
    if e <= i {
        0
    } else {
        fold_digits(s, i, e - 1) * 10 + dval(s[e - 1])
    }
}

/// Parses an unsigned decimal number: a non-empty digit run of at most
/// nineteen digits.
pub open spec fn p_nat(s: Seq<char>, i: int) -> Option<(int, int)> {
    if 0 <= i < s.len() && dval(s[i]) >= 0 {
        let e = digits_end(s, i);
        if e - i <= 19 {
            Some((fold_digits(s, i, e), e))
        } else {
            None
        }
    } else {
        None
    }
}

/// Parses a signed decimal number in `i64` range.
pub open spec fn p_int(s: Seq<char>, i: int) -> Option<(int, int)> {
    if 0 <= i < s.len() && s[i] == '-' {
        match p_nat(s, i + 1) {
            Some((n, e)) => if n <= 0x8000_0000_0000_0000 {
                Some((-n, e))
            } else {
                None
            },
            None => None,
        }
    } else {
        match p_nat(s, i) {
            Some((n, e)) => if n <= 0x7FFF_FFFF_FFFF_FFFF {
                Some((n, e))
            } else {
                None
            },
            None => None,
        }
    }
}

/// Parses `null` or a signed number.
pub open spec fn p_opt(s: Seq<char>, i: int) -> Option<(Option<i64>, int)> {
    if 0 <= i && i + 4 <= s.len() && s[i] == 'n' && s[i + 1] == 'u' && s[i + 2] == 'l' && s[i + 3]
        == 'l' {
        Some((None, i + 4))
    } else {
        match p_int(s, i) {
            Some((v, e)) => Some((Some(v as i64), e)),
            None => None,
        }
    }
}

/// Parses `null` or an unsigned number in `usize` range.
pub open spec fn p_ci(s: Seq<char>, i: int) -> Option<(Option<usize>, int)> {
    if 0 <= i && i + 4 <= s.len() && s[i] == 'n' && s[i + 1] == 'u' && s[i + 2] == 'l' && s[i + 3]
        == 'l' {
        Some((None, i + 4))
    } else {
        match p_nat(s, i) {
            Some((n, e)) => if n <= usize::MAX {
                Some((Some(n as usize), e))
            } else {
                None
            },
            None => None,
        }
    }
}

/// Parses exactly the character `c`.
pub open spec fn p_char(s: Seq<char>, i: int, c: char) -> Option<int> {
    if 0 <= i < s.len() && s[i] == c {
        Some(i + 1)
    } else {
        None
    }
}

/// Parses the characters of a string up to its closing quote, undoing
/// the escapes.
pub open spec fn p_str_body(s: Seq<char>, i: int) -> Option<(Seq<char>, int)>
    decreases s.len() - i
        when 0 <= i <= s.len()
{
    if i >= s.len() {
        None
    } else if s[i] == '"' {
        Some((Seq::empty(), i + 1))
    } else if s[i] == '\\' {
        if i + 1 < s.len() {
            match p_str_body(s, i + 2) {
                Some((t, e)) => Some((seq![s[i + 1]] + t, e)),
                None => None,
            }
        } else {
            None
        }
    } else {
        match p_str_body(s, i + 1) {
            Some((t, e)) => Some((seq![s[i]] + t, e)),
            None => None,
        }
    }
}

/// Parses a quoted string.
pub open spec fn p_str(s: Seq<char>, i: int) -> Option<(Seq<char>, int)> {
    match p_char(s, i, '"') {
        Some(e) => p_str_body(s, e),
        None => None,
    }
}

/// Parses exactly `n` comma-separated optional numbers.
pub open spec fn p_opts(s: Seq<char>, i: int, n: nat) -> Option<(Seq<Option<i64>>, int)>
    decreases n,
{
    if n == 0 {
        Some((Seq::empty(), i))
    } else {
        match p_opt(s, i) {
            None => None,
            Some((v, e)) => if n == 1 {
                Some((seq![v], e))
            } else {
                match p_char(s, e, ',') {
                    None => None,
                    Some(e2) => match p_opts(s, e2, (n - 1) as nat) {
                        None => None,
                        Some((vs, e3)) => Some((seq![v] + vs, e3)),
                    },
                }
            },
        }
    }
}

/// Parses one record of arity `n`.
pub open spec fn p_rec(s: Seq<char>, i: int, n: nat) -> Option<(Seq<Option<i64>>, int)> {
    match p_char(s, i, '[') {
        None => None,
        Some(e) => match p_opts(s, e, n) {
            None => None,
            Some((vs, e2)) => match p_char(s, e2, ']') {
                None => None,
                Some(e3) => Some((vs, e3)),
            },
        },
    }
}

/// Parses the non-empty tail of a record list, up to and including the
/// closing bracket.
pub open spec fn p_recs_tail(s: Seq<char>, i: int, n: nat) -> Option<
    (Seq<Seq<Option<i64>>>, int),
>
    decreases s.len() - i
        when 0 <= i <= s.len()
{
    match p_rec(s, i, n) {
        None => None,
        Some((f, e)) => if !(i < e <= s.len()) {
            None
        } else if e < s.len() && s[e] == ',' {
            match p_recs_tail(s, e + 1, n) {
                None => None,
                Some((rs, e2)) => Some((seq![f] + rs, e2)),
            }
        } else if e < s.len() && s[e] == ']' {
            Some((seq![f], e + 1))
        } else {
            None
        },
    }
}

/// Parses a bracketed record list.
pub open spec fn p_rec_arr(s: Seq<char>, i: int, n: nat) -> Option<(Seq<Seq<Option<i64>>>, int)> {
    match p_char(s, i, '[') {
        None => None,
        Some(e) => if e < s.len() && s[e] == ']' {
            Some((Seq::empty(), e + 1))
        } else {
            p_recs_tail(s, e, n)
        },
    }
}

/// Parses one slice: a record list and its provenance.
pub open spec fn p_slice_raw(s: Seq<char>, i: int, n: nat) -> Option<
    ((Seq<Seq<Option<i64>>>, int, Option<i64>), int),
> {
    match p_char(s, i, '[') {
        None => None,
        Some(e0) => match p_rec_arr(s, e0, n) {
            None => None,
            Some((rs, e1)) => match p_char(s, e1, ',') {
                None => None,
                Some(e2) => match p_nat(s, e2) {
                    None => None,
                    Some((lpl, e3)) => if lpl <= usize::MAX {
                        match p_char(s, e3, ',') {
                            None => None,
                            Some(e4) => match p_opt(s, e4) {
                                None => None,
                                Some((lpt, e5)) => match p_char(s, e5, ']') {
                                    None => None,
                                    Some(e6) => Some(((rs, lpl, lpt), e6)),
                                },
                            },
                        }
                    } else {
                        None
                    },
                },
            },
        },
    }
}

// ---------------------------------------------------------------------
// The decoder.
// ---------------------------------------------------------------------

fn dval_exec(c: char) -> (r: i32)
    ensures
        r as int == dval(c),
{
    if c == '0' {
        0
    } else if c == '1' {
        1
    } else if c == '2' {
        2
    } else if c == '3' {
        3
    } else if c == '4' {
        4
    } else if c == '5' {
        5
    } else if c == '6' {
        6
    } else if c == '7' {
        7
    } else if c == '8' {
        8
    } else if c == '9' {
        9
    } else {
        -1
    }
}

fn digits_end_exec(s: &Vec<char>, i: usize) -> (e: usize)
    requires
        i <= s@.len(),
    ensures
        e as int == digits_end(s@, i as int),
        i <= e <= s@.len(),
    decreases s@.len() - i,
{
    if i < s.len() && dval_exec(s[i]) >= 0 {
        digits_end_exec(s, i + 1)
    } else {
        i
    }
}

/// Powers of ten.
pub open spec fn pow10(k: nat) -> nat
    decreases k,
{
    if k == 0 {
        1
    } else {
        10 * pow10((k - 1) as nat)
    }
}

proof fn lemma_pow10_pos(k: nat)
    ensures
        pow10(k) >= 1,
    decreases k,
{
    if k > 0 {
        lemma_pow10_pos((k - 1) as nat);
    }
}

proof fn lemma_pow10_monotone(a: nat, b: nat)
    requires
        a <= b,
    ensures
        pow10(a) <= pow10(b),
        pow10(a) >= 1,
    decreases b,
{
    lemma_pow10_pos(a);
    if a < b {
        lemma_pow10_monotone(a, (b - 1) as nat);
    }
}

proof fn lemma_fold_bounds(s: Seq<char>, i: int, e: int)
    requires
        0 <= i <= e <= s.len(),
        forall|j: int| i <= j < e ==> dval(#[trigger] s[j]) >= 0,
    ensures
        0 <= fold_digits(s, i, e) < pow10((e - i) as nat),
    decreases e - i,
{
    if e > i {
        lemma_fold_bounds(s, i, e - 1);
        assert(dval(s[e - 1]) <= 9);
        assert(pow10((e - i) as nat) == 10 * pow10((e - 1 - i) as nat));
    }
}

proof fn lemma_digits_end_digits(s: Seq<char>, i: int)
    requires
        0 <= i <= s.len(),
    ensures
        forall|j: int| i <= j < digits_end(s, i) ==> dval(#[trigger] s[j]) >= 0,
        digits_end(s, i) == s.len() || dval(s[digits_end(s, i)]) < 0,
        i <= digits_end(s, i) <= s.len(),
    decreases s.len() - i,
{
    if i < s.len() && dval(s[i]) >= 0 {
        lemma_digits_end_digits(s, i + 1);
    }
}

fn fold_exec(s: &Vec<char>, i: usize, e: usize) -> (r: u64)
    requires
        i <= e <= s@.len(),
        e - i <= 19,
        forall|j: int| i <= j < e ==> dval(#[trigger] s@[j]) >= 0,
    ensures
        r as int == fold_digits(s@, i as int, e as int),
    decreases e - i,
{
    proof {
        lemma_fold_bounds(s@, i as int, e as int);
        lemma_pow10_monotone((e - i) as nat, 19);
        reveal_with_fuel(pow10, 21);
        assert(pow10(19) == 10_000_000_000_000_000_000);
    }
    if e <= i {
        0
    } else {
        let prefix = fold_exec(s, i, e - 1);
        proof {
            lemma_fold_bounds(s@, i as int, e as int - 1);
            lemma_pow10_monotone((e - 1 - i) as nat, 18);
            reveal_with_fuel(pow10, 21);
            assert(pow10(18) == 1_000_000_000_000_000_000);
        }
        let d = dval_exec(s[e - 1]);
        prefix * 10 + (d as u64)
    }
}

fn parse_nat(s: &Vec<char>, i: usize) -> (r: Option<(u64, usize)>)
    requires
        i <= s@.len(),
    ensures
        match p_nat(s@, i as int) {
            None => r is None,
            Some((n, e)) => r matches Some((rn, re)) && rn as int == n && re as int == e && i < e
                <= s@.len(),
        },
{
    if i < s.len() && dval_exec(s[i]) >= 0 {
        let e = digits_end_exec(s, i);
        proof {
            lemma_digits_end_digits(s@, i as int);
        }
        if e - i <= 19 {
            proof {
                lemma_fold_bounds(s@, i as int, e as int);
                lemma_pow10_monotone((e - i) as nat, 19);
                reveal_with_fuel(pow10, 21);
                assert(pow10(19) == 10_000_000_000_000_000_000);
            }
            let v = fold_exec(s, i, e);
            Some((v, e))
        } else {
            None
        }
    } else {
        None
    }
}

fn parse_int(s: &Vec<char>, i: usize) -> (r: Option<(i64, usize)>)
    requires
        i <= s@.len(),
    ensures
        match p_int(s@, i as int) {
            None => r is None,
            Some((v, e)) => r matches Some((rv, re)) && rv as int == v && re as int == e && i < e
                <= s@.len(),
        },
{
    if i < s.len() && s[i] == '-' {
        match parse_nat(s, i + 1) {
            Some((n, e)) => {
                if n <= 0x8000_0000_0000_0000u64 {
                    let v: i64 = if n == 0x8000_0000_0000_0000u64 {
                        i64::MIN
                    } else {
                        -(n as i64)
                    };
                    Some((v, e))
                } else {
                    None
                }
            },
            None => None,
        }
    } else {
        match parse_nat(s, i) {
            Some((n, e)) => {
                if n <= 0x7FFF_FFFF_FFFF_FFFFu64 {
                    Some((n as i64, e))
                } else {
                    None
                }
            },
            None => None,
        }
    }
}

fn parse_opt(s: &Vec<char>, i: usize) -> (r: Option<(Option<i64>, usize)>)
    requires
        i <= s@.len(),
    ensures
        match p_opt(s@, i as int) {
            None => r is None,
            Some((v, e)) => r matches Some((rv, re)) && rv == v && re as int == e && i < e
                <= s@.len(),
        },
{
    if s.len() - i >= 4 && s[i] == 'n' && s[i + 1] == 'u' && s[i + 2] == 'l' && s[i + 3] == 'l' {
        Some((None, i + 4))
    } else {
        match parse_int(s, i) {
            Some((v, e)) => Some((Some(v), e)),
            None => None,
        }
    }
}

fn parse_ci(s: &Vec<char>, i: usize) -> (r: Option<(Option<usize>, usize)>)
    requires
        i <= s@.len(),
    ensures
        match p_ci(s@, i as int) {
            None => r is None,
            Some((v, e)) => r matches Some((rv, re)) && rv == v && re as int == e && i < e
                <= s@.len(),
        },
{
    if s.len() - i >= 4 && s[i] == 'n' && s[i + 1] == 'u' && s[i + 2] == 'l' && s[i + 3] == 'l' {
        Some((None, i + 4))
    } else {
        match parse_nat(s, i) {
            Some((n, e)) => {
                if n <= usize::MAX as u64 {
                    Some((Some(n as usize), e))
                } else {
                    None
                }
            },
            None => None,
        }
    }
}

fn parse_char(s: &Vec<char>, i: usize, c: char) -> (r: Option<usize>)
    requires
        i <= s@.len(),
    ensures
        match p_char(s@, i as int, c) {
            None => r is None,
            Some(e) => r matches Some(re) && re as int == e && i < e <= s@.len(),
        },
{
    if i < s.len() && s[i] == c {
        Some(i + 1)
    } else {
        None
    }
}

fn parse_str_body(s: &Vec<char>, i: usize, out: &mut Vec<char>) -> (r: Option<usize>)
    requires
        i <= s@.len(),
    ensures
        match p_str_body(s@, i as int) {
            None => r is None,
            Some((t, e)) => r matches Some(re) && re as int == e && final(out)@ == old(out)@ + t
                && i < e <= s@.len(),
        },
    decreases s@.len() - i,
{
    if i >= s.len() {
        None
    } else if s[i] == '"' {
        proof {
            assert(out@ =~= out@ + Seq::<char>::empty());
        }
        Some(i + 1)
    } else if s[i] == '\\' {
        if i + 1 < s.len() {
            let c = s[i + 1];
            out.push(c);
            let r = parse_str_body(s, i + 2, out);
            proof {
                match p_str_body(s@, i as int) {
                    Some((t, e)) => {
                        assert(out@ =~= old(out)@ + t);
                    },
                    None => {},
                }
            }
            r
        } else {
            None
        }
    } else {
        let c = s[i];
        out.push(c);
        let r = parse_str_body(s, i + 1, out);
        proof {
            match p_str_body(s@, i as int) {
                Some((t, e)) => {
                    assert(out@ =~= old(out)@ + t);
                },
                None => {},
            }
        }
        r
    }
}

/// Relies on `String`'s `FromIterator<char>` implementation: collecting
/// characters yields the string of exactly those characters.
#[verifier::external_body]
fn chars_to_string(v: &Vec<char>) -> (r: String)
    ensures
        r@ == v@,
{
    v.iter().collect()
}

fn parse_str(s: &Vec<char>, i: usize) -> (r: Option<(String, usize)>)
    requires
        i <= s@.len(),
    ensures
        match p_str(s@, i as int) {
            None => r is None,
            Some((t, e)) => r matches Some((rt, re)) && rt@ == t && re as int == e && i < e
                <= s@.len(),
        },
{
    match parse_char(s, i, '"') {
        None => None,
        Some(e) => {
            let mut buf: Vec<char> = Vec::new();
            match parse_str_body(s, e, &mut buf) {
                None => None,
                Some(e2) => {
                    let t = chars_to_string(&buf);
                    proof {
                        match p_str_body(s@, e as int) {
                            Some((tt, _)) => {
                                assert(buf@ =~= tt);
                            },
                            None => {},
                        }
                    }
                    Some((t, e2))
                },
            }
        },
    }
}

fn parse_opts_into(s: &Vec<char>, i: usize, n: usize, out: &mut Vec<Option<i64>>) -> (r: Option<
    usize,
>)
    requires
        i <= s@.len(),
    ensures
        match p_opts(s@, i as int, n as nat) {
            None => r is None,
            Some((vs, e)) => r matches Some(re) && re as int == e && final(out)@ == old(out)@ + vs
                && i <= e <= s@.len(),
        },
    decreases n,
{
    if n == 0 {
        proof {
            assert(out@ =~= out@ + Seq::<Option<i64>>::empty());
        }
        Some(i)
    } else {
        match parse_opt(s, i) {
            None => None,
            Some((v, e)) => {
                out.push(v);
                if n == 1 {
                    proof {
                        assert(out@ =~= old(out)@ + seq![v]);
                    }
                    Some(e)
                } else {
                    match parse_char(s, e, ',') {
                        None => None,
                        Some(e2) => {
                            let r = parse_opts_into(s, e2, n - 1, out);
                            proof {
                                match p_opts(s@, i as int, n as nat) {
                                    Some((vs, e3)) => {
                                        assert(out@ =~= old(out)@ + vs);
                                    },
                                    None => {},
                                }
                            }
                            r
                        },
                    }
                }
            },
        }
    }
}

fn parse_rec(s: &Vec<char>, i: usize, n: usize) -> (r: Option<(Vec<Option<i64>>, usize)>)
    requires
        i <= s@.len(),
    ensures
        match p_rec(s@, i as int, n as nat) {
            None => r is None,
            Some((vs, e)) => r matches Some((rv, re)) && rv@ == vs && re as int == e && i < e
                <= s@.len(),
        },
{
    match parse_char(s, i, '[') {
        None => None,
        Some(e) => {
            let mut vs: Vec<Option<i64>> = Vec::new();
            match parse_opts_into(s, e, n, &mut vs) {
                None => None,
                Some(e2) => {
                    match parse_char(s, e2, ']') {
                        None => None,
                        Some(e3) => Some((vs, e3)),
                    }
                },
            }
        },
    }
}

fn parse_recs_tail(s: &Vec<char>, i: usize, n: usize, out: &mut Vec<Vec<Option<i64>>>) -> (r:
    Option<usize>)
    requires
        i <= s@.len(),
    ensures
        match p_recs_tail(s@, i as int, n as nat) {
            None => r is None,
            Some((rs, e)) => r matches Some(re) && re as int == e && final(out)@.map_values(
                |v: Vec<Option<i64>>| v@,
            ) == old(out)@.map_values(|v: Vec<Option<i64>>| v@) + rs && i < e <= s@.len(),
        },
    decreases s@.len() - i,
{
    match parse_rec(s, i, n) {
        None => None,
        Some((f, e)) => {
            let ghost fview = f@;
            out.push(f);
            if e < s.len() && s[e] == ',' {
                let r = parse_recs_tail(s, e + 1, n, out);
                proof {
                    match p_recs_tail(s@, i as int, n as nat) {
                        Some((rs, e2)) => {
                            assert(old(out)@.push(f).map_values(|v: Vec<Option<i64>>| v@)
                                =~= old(out)@.map_values(|v: Vec<Option<i64>>| v@)
                                + seq![fview]);
                            assert(out@.map_values(|v: Vec<Option<i64>>| v@) =~= old(out)@
                                .map_values(|v: Vec<Option<i64>>| v@) + rs);
                        },
                        None => {},
                    }
                }
                r
            } else if e < s.len() && s[e] == ']' {
                proof {
                    assert(out@.map_values(|v: Vec<Option<i64>>| v@) =~= old(out)@.map_values(
                        |v: Vec<Option<i64>>| v@,
                    ) + seq![fview]);
                }
                Some(e + 1)
            } else {
                None
            }
        },
    }
}

fn parse_rec_arr(s: &Vec<char>, i: usize, n: usize) -> (r: Option<(Vec<Vec<Option<i64>>>, usize)>)
    requires
        i <= s@.len(),
    ensures
        match p_rec_arr(s@, i as int, n as nat) {
            None => r is None,
            Some((rs, e)) => r matches Some((rv, re)) && rv@.map_values(|v: Vec<Option<i64>>| v@)
                == rs && re as int == e && i < e <= s@.len(),
        },
{
    match parse_char(s, i, '[') {
        None => None,
        Some(e) => {
            if e < s.len() && s[e] == ']' {
                let empty: Vec<Vec<Option<i64>>> = Vec::new();
                proof {
                    assert(empty@.map_values(|v: Vec<Option<i64>>| v@) =~= Seq::<
                        Seq<Option<i64>>,
                    >::empty());
                }
                Some((empty, e + 1))
            } else {
                let mut rs: Vec<Vec<Option<i64>>> = Vec::new();
                let ghost rs0 = rs@;
                match parse_recs_tail(s, e, n, &mut rs) {
                    None => None,
                    Some(e2) => {
                        proof {
                            assert(rs0.map_values(|v: Vec<Option<i64>>| v@) =~= Seq::<
                                Seq<Option<i64>>,
                            >::empty());
                        }
                        Some((rs, e2))
                    },
                }
            }
        },
    }
}

fn parse_slice_raw(s: &Vec<char>, i: usize, n: usize) -> (r: Option<
    (Vec<Vec<Option<i64>>>, usize, Option<i64>, usize),
>)
    requires
        i <= s@.len(),
    ensures
        match p_slice_raw(s@, i as int, n as nat) {
            None => r is None,
            Some(((rs, lpl, lpt), e)) => r matches Some((rv, rlpl, rlpt, re)) && rv@.map_values(
                |v: Vec<Option<i64>>| v@,
            ) == rs && rlpl as int == lpl && rlpt == lpt && re as int == e && i < e <= s@.len(),
        },
{
    match parse_char(s, i, '[') {
        None => None,
        Some(e0) => match parse_rec_arr(s, e0, n) {
            None => None,
            Some((rs, e1)) => match parse_char(s, e1, ',') {
                None => None,
                Some(e2) => match parse_nat(s, e2) {
                    None => None,
                    Some((lpl, e3)) => {
                        if lpl <= usize::MAX as u64 {
                            match parse_char(s, e3, ',') {
                                None => None,
                                Some(e4) => match parse_opt(s, e4) {
                                    None => None,
                                    Some((lpt, e5)) => match parse_char(s, e5, ']') {
                                        None => None,
                                        Some(e6) => Some((rs, lpl as usize, lpt, e6)),
                                    },
                                },
                            }
                        } else {
                            None
                        }
                    },
                },
            },
        },
    }
}

/// Encodes the whole cache as the persisted JSON array.
#[verifier::rlimit(80)]
pub fn encode_cache(stocks: &Vec<Stock>) -> (r: Vec<char>)
    ensures
        r@ == enc_cache(cache_model(stocks@)),
{
    let mut out: Vec<char> = Vec::new();
    out.push('[');
    push_stocks(&mut out, stocks, 0);
    out.push(']');
    proof {
        assert(stocks@.skip(0) =~= stocks@);
        assert(out@ =~= enc_cache(cache_model(stocks@)));
    }
    out
}

// ---------------------------------------------------------------------
// Typed decoding: field lists back into records, record lists back into
// slices, slices back into stores.
// ---------------------------------------------------------------------

/// An income record from its field list: exact arity, and every additive
/// amount small enough for trailing-twelve-month synthesis.
pub open spec fn income_from_fields(fs: Seq<Option<i64>>) -> Option<IncomeStatement> {
    if fs.len() == 11 {
        let r = IncomeStatement {
            date: fs[0],
            revenue: fs[1],
            cost_of_revenue: fs[2],
            gross_profit: fs[3],
            gross_profit_ratio: fs[4],
            operating_income: fs[5],
            income_before_tax: fs[6],
            income_tax_expense: fs[7],
            net_income: fs[8],
            net_income_ratio: fs[9],
            eps: fs[10],
        };
        if crate::statements::income_amount_wf(r) {
            Some(r)
        } else {
            None
        }
    } else {
        None
    }
}

/// An unchecked income record from its field list (annual and
/// trailing-twelve-month slots, which are never summed).
pub open spec fn income_from_fields_raw(fs: Seq<Option<i64>>) -> Option<IncomeStatement> {
    if fs.len() == 11 {
        Some(
            IncomeStatement {
                date: fs[0],
                revenue: fs[1],
                cost_of_revenue: fs[2],
                gross_profit: fs[3],
                gross_profit_ratio: fs[4],
                operating_income: fs[5],
                income_before_tax: fs[6],
                income_tax_expense: fs[7],
                net_income: fs[8],
                net_income_ratio: fs[9],
                eps: fs[10],
            },
        )
    } else {
        None
    }
}

/// A balance-sheet record from its field list.
pub open spec fn balance_from_fields(fs: Seq<Option<i64>>) -> Option<BalanceSheetStatement> {
    if fs.len() == 6 {
        Some(
            BalanceSheetStatement {
                date: fs[0],
                total_assets: fs[1],
                total_liabilities: fs[2],
                total_stockholders_equity: fs[3],
                long_term_debt: fs[4],
                total_debt: fs[5],
            },
        )
    } else {
        None
    }
}

/// A cash-flow record from its field list.
pub open spec fn cash_from_fields(fs: Seq<Option<i64>>) -> Option<CashFlowStatement> {
    if fs.len() == 5 {
        Some(
            CashFlowStatement {
                date: fs[0],
                net_income: fs[1],
                operating_cash_flow: fs[2],
                capital_expenditure: fs[3],
                free_cash_flow: fs[4],
            },
        )
    } else {
        None
    }
}

/// A ratio record from its field list.
pub open spec fn ratios_from_fields(fs: Seq<Option<i64>>) -> Option<Ratios> {
    if fs.len() == 5 {
        Some(
            Ratios {
                date: fs[0],
                current_ratio: fs[1],
                return_on_assets: fs[2],
                return_on_equity: fs[3],
                debt_equity_ratio: fs[4],
            },
        )
    } else {
        None
    }
}

/// A trailing-twelve-month ratio record from its field list.
pub open spec fn ratios_ttm_from_fields(fs: Seq<Option<i64>>) -> Option<RatiosTTM> {
    if fs.len() == 3 {
        Some(
            RatiosTTM { pe_ratio_ttm: fs[0], return_on_equity_ttm: fs[1], dividend_yield_ttm: fs[2] },
        )
    } else {
        None
    }
}

/// A key-metric record from its field list.
pub open spec fn key_metrics_from_fields(fs: Seq<Option<i64>>) -> Option<KeyMetrics> {
    if fs.len() == 6 {
        Some(
            KeyMetrics {
                date: fs[0],
                market_cap: fs[1],
                pe_ratio: fs[2],
                earnings_yield: fs[3],
                roic: fs[4],
                roe: fs[5],
            },
        )
    } else {
        None
    }
}

/// A trailing-twelve-month key-metric record from its field list.
pub open spec fn key_metrics_ttm_from_fields(fs: Seq<Option<i64>>) -> Option<KeyMetricsTTM> {
    if fs.len() == 4 {
        Some(
            KeyMetricsTTM {
                market_cap_ttm: fs[0],
                pe_ratio_ttm: fs[1],
                earnings_yield_ttm: fs[2],
                roic_ttm: fs[3],
            },
        )
    } else {
        None
    }
}

/// A profile record from its field list.
pub open spec fn profile_from_fields(fs: Seq<Option<i64>>) -> Option<Profile> {
    if fs.len() == 8 {
        Some(
            Profile {
                price: fs[0],
                beta: fs[1],
                vol_avg: fs[2],
                mkt_cap: fs[3],
                last_div: fs[4],
                changes: fs[5],
                dcf_diff: fs[6],
                dcf: fs[7],
            },
        )
    } else {
        None
    }
}

/// A discounted-cash-flow record from its field list.
pub open spec fn dcf_from_fields(fs: Seq<Option<i64>>) -> Option<
    AdvancedLeveredDiscountedCashFlow,
> {
    if fs.len() == 2 {
        Some(AdvancedLeveredDiscountedCashFlow { equity_value: fs[0], equity_value_per_share: fs[1] })
    } else {
        None
    }
}

/// All records of a list through `conv`, or nothing when any record is
/// rejected.
pub open spec fn items_from<T>(
    rs: Seq<Seq<Option<i64>>>,
    conv: spec_fn(Seq<Option<i64>>) -> Option<T>,
) -> Option<Seq<T>>
    decreases rs.len(),
{
    if rs.len() == 0 {
        Some(Seq::empty())
    } else {
        match conv(rs[0]) {
            None => None,
            Some(r) => match items_from(rs.drop_first(), conv) {
                None => None,
                Some(t) => Some(seq![r] + t),
            },
        }
    }
}

/// A typed slice from a raw one: its records through `conv`, its
/// provenance as parsed.
pub open spec fn slice_from<T>(
    raw: Option<((Seq<Seq<Option<i64>>>, int, Option<i64>), int)>,
    conv: spec_fn(Seq<Option<i64>>) -> Option<T>,
) -> Option<((Seq<T>, FetchStats), int)> {
    match raw {
        None => None,
        Some(((rs, lpl, lpt), e)) => match items_from(rs, conv) {
            None => None,
            Some(items) => Some(
                (
                    (
                        items,
                        FetchStats { last_pull_length: lpl as usize, last_pull_time: lpt },
                    ),
                    e,
                ),
            ),
        },
    }
}

fn amount_ok(o: Option<i64>) -> (r: bool)
    ensures
        r == crate::statements::amount_bounded(o),
{
    match o {
        Some(v) => -1_000_000_000_000_000_000 <= v && v <= 1_000_000_000_000_000_000,
        None => true,
    }
}

fn income_of_fields(v: &Vec<Option<i64>>) -> (r: Option<IncomeStatement>)
    ensures
        r == income_from_fields(v@),
{
    if v.len() == 11 {
        let rec = IncomeStatement {
            date: v[0],
            revenue: v[1],
            cost_of_revenue: v[2],
            gross_profit: v[3],
            gross_profit_ratio: v[4],
            operating_income: v[5],
            income_before_tax: v[6],
            income_tax_expense: v[7],
            net_income: v[8],
            net_income_ratio: v[9],
            eps: v[10],
        };
        let ok = amount_ok(rec.revenue) && amount_ok(rec.cost_of_revenue) && amount_ok(
            rec.gross_profit,
        ) && amount_ok(rec.operating_income) && amount_ok(rec.income_before_tax) && amount_ok(
            rec.income_tax_expense,
        ) && amount_ok(rec.net_income) && amount_ok(rec.eps);
        if ok {
            Some(rec)
        } else {
            None
        }
    } else {
        None
    }
}

fn income_of_fields_raw(v: &Vec<Option<i64>>) -> (r: Option<IncomeStatement>)
    ensures
        r == income_from_fields_raw(v@),
{
    if v.len() == 11 {
        Some(
            IncomeStatement {
                date: v[0],
                revenue: v[1],
                cost_of_revenue: v[2],
                gross_profit: v[3],
                gross_profit_ratio: v[4],
                operating_income: v[5],
                income_before_tax: v[6],
                income_tax_expense: v[7],
                net_income: v[8],
                net_income_ratio: v[9],
                eps: v[10],
            },
        )
    } else {
        None
    }
}

fn balance_of_fields(v: &Vec<Option<i64>>) -> (r: Option<BalanceSheetStatement>)
    ensures
        r == balance_from_fields(v@),
{
    if v.len() == 6 {
        Some(
            BalanceSheetStatement {
                date: v[0],
                total_assets: v[1],
                total_liabilities: v[2],
                total_stockholders_equity: v[3],
                long_term_debt: v[4],
                total_debt: v[5],
            },
        )
    } else {
        None
    }
}

fn cash_of_fields(v: &Vec<Option<i64>>) -> (r: Option<CashFlowStatement>)
    ensures
        r == cash_from_fields(v@),
{
    if v.len() == 5 {
        Some(
            CashFlowStatement {
                date: v[0],
                net_income: v[1],
                operating_cash_flow: v[2],
                capital_expenditure: v[3],
                free_cash_flow: v[4],
            },
        )
    } else {
        None
    }
}

fn ratios_of_fields(v: &Vec<Option<i64>>) -> (r: Option<Ratios>)
    ensures
        r == ratios_from_fields(v@),
{
    if v.len() == 5 {
        Some(
            Ratios {
                date: v[0],
                current_ratio: v[1],
                return_on_assets: v[2],
                return_on_equity: v[3],
                debt_equity_ratio: v[4],
            },
        )
    } else {
        None
    }
}

fn ratios_ttm_of_fields(v: &Vec<Option<i64>>) -> (r: Option<RatiosTTM>)
    ensures
        r == ratios_ttm_from_fields(v@),
{
    if v.len() == 3 {
        Some(RatiosTTM { pe_ratio_ttm: v[0], return_on_equity_ttm: v[1], dividend_yield_ttm: v[2] })
    } else {
        None
    }
}

fn key_metrics_of_fields(v: &Vec<Option<i64>>) -> (r: Option<KeyMetrics>)
    ensures
        r == key_metrics_from_fields(v@),
{
    if v.len() == 6 {
        Some(
            KeyMetrics {
                date: v[0],
                market_cap: v[1],
                pe_ratio: v[2],
                earnings_yield: v[3],
                roic: v[4],
                roe: v[5],
            },
        )
    } else {
        None
    }
}

fn key_metrics_ttm_of_fields(v: &Vec<Option<i64>>) -> (r: Option<KeyMetricsTTM>)
    ensures
        r == key_metrics_ttm_from_fields(v@),
{
    if v.len() == 4 {
        Some(
            KeyMetricsTTM {
                market_cap_ttm: v[0],
                pe_ratio_ttm: v[1],
                earnings_yield_ttm: v[2],
                roic_ttm: v[3],
            },
        )
    } else {
        None
    }
}

fn profile_of_fields(v: &Vec<Option<i64>>) -> (r: Option<Profile>)
    ensures
        r == profile_from_fields(v@),
{
    if v.len() == 8 {
        Some(
            Profile {
                price: v[0],
                beta: v[1],
                vol_avg: v[2],
                mkt_cap: v[3],
                last_div: v[4],
                changes: v[5],
                dcf_diff: v[6],
                dcf: v[7],
            },
        )
    } else {
        None
    }
}

fn dcf_of_fields(v: &Vec<Option<i64>>) -> (r: Option<AdvancedLeveredDiscountedCashFlow>)
    ensures
        r == dcf_from_fields(v@),
{
    if v.len() == 2 {
        Some(AdvancedLeveredDiscountedCashFlow { equity_value: v[0], equity_value_per_share: v[1] })
    } else {
        None
    }
}


fn income_checked_items_into(raw: &Vec<Vec<Option<i64>>>, k: usize, out: &mut Vec<IncomeStatement>) -> (ok: bool)
    requires
        k <= raw@.len(),
    ensures
        ({
            let m = items_from(
                raw@.map_values(|v: Vec<Option<i64>>| v@).skip(k as int),
                |fs: Seq<Option<i64>>| income_from_fields(fs),
            );
            match m {
                None => !ok,
                Some(items) => ok && final(out)@ == old(out)@ + items,
            }
        }),
    decreases raw@.len() - k,
{
    let ghost mseq = raw@.map_values(|v: Vec<Option<i64>>| v@).skip(k as int);
    if k < raw.len() {
        proof {
            assert(mseq[0] == raw@[k as int]@);
            assert(mseq.drop_first() =~= raw@.map_values(|v: Vec<Option<i64>>| v@).skip(k + 1));
        }
        match income_of_fields(&raw[k]) {
            None => false,
            Some(r) => {
                out.push(r);
                let ok2 = income_checked_items_into(raw, k + 1, out);
                proof {
                    match items_from(mseq.drop_first(), |fs: Seq<Option<i64>>| income_from_fields(fs)) {
                        Some(t) => {
                            assert(out@ =~= old(out)@ + (seq![r] + t));
                        },
                        None => {},
                    }
                }
                ok2
            },
        }
    } else {
        proof {
            assert(mseq.len() == 0);
            assert(out@ =~= out@ + Seq::<IncomeStatement>::empty());
        }
        true
    }
}

fn parse_income_checked_slice(s: &Vec<char>, i: usize) -> (r: Option<(StatementSlice<IncomeStatement>, usize)>)
    requires
        i <= s@.len(),
    ensures
        ({
            let m = slice_from(
                p_slice_raw(s@, i as int, 11),
                |fs: Seq<Option<i64>>| income_from_fields(fs),
            );
            match m {
                None => r is None,
                Some(((items, stats), e)) => r matches Some((sl, re)) && sl.items@ == items
                    && sl.stats == stats && re as int == e && i < e <= s@.len(),
            }
        }),
{
    match parse_slice_raw(s, i, 11) {
        None => None,
        Some((raw, lpl, lpt, e)) => {
            let mut items: Vec<IncomeStatement> = Vec::new();
            let ok = income_checked_items_into(&raw, 0, &mut items);
            proof {
                assert(raw@.map_values(|v: Vec<Option<i64>>| v@).skip(0) =~= raw@.map_values(
                    |v: Vec<Option<i64>>| v@,
                ));
            }
            if ok {
                proof {
                    match items_from(
                        raw@.map_values(|v: Vec<Option<i64>>| v@),
                        |fs: Seq<Option<i64>>| income_from_fields(fs),
                    ) {
                        Some(its) => {
                            assert(items@ =~= Seq::<IncomeStatement>::empty() + its);
                        },
                        None => {},
                    }
                }
                Some(
                    (
                        StatementSlice {
                            items,
                            stats: FetchStats { last_pull_length: lpl, last_pull_time: lpt },
                        },
                        e,
                    ),
                )
            } else {
                None
            }
        },
    }
}


fn income_raw_items_into(raw: &Vec<Vec<Option<i64>>>, k: usize, out: &mut Vec<IncomeStatement>) -> (ok: bool)
    requires
        k <= raw@.len(),
    ensures
        ({
            let m = items_from(
                raw@.map_values(|v: Vec<Option<i64>>| v@).skip(k as int),
                |fs: Seq<Option<i64>>| income_from_fields_raw(fs),
            );
            match m {
                None => !ok,
                Some(items) => ok && final(out)@ == old(out)@ + items,
            }
        }),
    decreases raw@.len() - k,
{
    let ghost mseq = raw@.map_values(|v: Vec<Option<i64>>| v@).skip(k as int);
    if k < raw.len() {
        proof {
            assert(mseq[0] == raw@[k as int]@);
            assert(mseq.drop_first() =~= raw@.map_values(|v: Vec<Option<i64>>| v@).skip(k + 1));
        }
        match income_of_fields_raw(&raw[k]) {
            None => false,
            Some(r) => {
                out.push(r);
                let ok2 = income_raw_items_into(raw, k + 1, out);
                proof {
                    match items_from(mseq.drop_first(), |fs: Seq<Option<i64>>| income_from_fields_raw(fs)) {
                        Some(t) => {
                            assert(out@ =~= old(out)@ + (seq![r] + t));
                        },
                        None => {},
                    }
                }
                ok2
            },
        }
    } else {
        proof {
            assert(mseq.len() == 0);
            assert(out@ =~= out@ + Seq::<IncomeStatement>::empty());
        }
        true
    }
}

fn parse_income_raw_slice(s: &Vec<char>, i: usize) -> (r: Option<(StatementSlice<IncomeStatement>, usize)>)
    requires
        i <= s@.len(),
    ensures
        ({
            let m = slice_from(
                p_slice_raw(s@, i as int, 11),
                |fs: Seq<Option<i64>>| income_from_fields_raw(fs),
            );
            match m {
                None => r is None,
                Some(((items, stats), e)) => r matches Some((sl, re)) && sl.items@ == items
                    && sl.stats == stats && re as int == e && i < e <= s@.len(),
            }
        }),
{
    match parse_slice_raw(s, i, 11) {
        None => None,
        Some((raw, lpl, lpt, e)) => {
            let mut items: Vec<IncomeStatement> = Vec::new();
            let ok = income_raw_items_into(&raw, 0, &mut items);
            proof {
                assert(raw@.map_values(|v: Vec<Option<i64>>| v@).skip(0) =~= raw@.map_values(
                    |v: Vec<Option<i64>>| v@,
                ));
            }
            if ok {
                proof {
                    match items_from(
                        raw@.map_values(|v: Vec<Option<i64>>| v@),
                        |fs: Seq<Option<i64>>| income_from_fields_raw(fs),
                    ) {
                        Some(its) => {
                            assert(items@ =~= Seq::<IncomeStatement>::empty() + its);
                        },
                        None => {},
                    }
                }
                Some(
                    (
                        StatementSlice {
                            items,
                            stats: FetchStats { last_pull_length: lpl, last_pull_time: lpt },
                        },
                        e,
                    ),
                )
            } else {
                None
            }
        },
    }
}


fn balance_items_into(raw: &Vec<Vec<Option<i64>>>, k: usize, out: &mut Vec<BalanceSheetStatement>) -> (ok: bool)
    requires
        k <= raw@.len(),
    ensures
        ({
            let m = items_from(
                raw@.map_values(|v: Vec<Option<i64>>| v@).skip(k as int),
                |fs: Seq<Option<i64>>| balance_from_fields(fs),
            );
            match m {
                None => !ok,
                Some(items) => ok && final(out)@ == old(out)@ + items,
            }
        }),
    decreases raw@.len() - k,
{
    let ghost mseq = raw@.map_values(|v: Vec<Option<i64>>| v@).skip(k as int);
    if k < raw.len() {
        proof {
            assert(mseq[0] == raw@[k as int]@);
            assert(mseq.drop_first() =~= raw@.map_values(|v: Vec<Option<i64>>| v@).skip(k + 1));
        }
        match balance_of_fields(&raw[k]) {
            None => false,
            Some(r) => {
                out.push(r);
                let ok2 = balance_items_into(raw, k + 1, out);
                proof {
                    match items_from(mseq.drop_first(), |fs: Seq<Option<i64>>| balance_from_fields(fs)) {
                        Some(t) => {
                            assert(out@ =~= old(out)@ + (seq![r] + t));
                        },
                        None => {},
                    }
                }
                ok2
            },
        }
    } else {
        proof {
            assert(mseq.len() == 0);
            assert(out@ =~= out@ + Seq::<BalanceSheetStatement>::empty());
        }
        true
    }
}

fn parse_balance_slice(s: &Vec<char>, i: usize) -> (r: Option<(StatementSlice<BalanceSheetStatement>, usize)>)
    requires
        i <= s@.len(),
    ensures
        ({
            let m = slice_from(
                p_slice_raw(s@, i as int, 6),
                |fs: Seq<Option<i64>>| balance_from_fields(fs),
            );
            match m {
                None => r is None,
                Some(((items, stats), e)) => r matches Some((sl, re)) && sl.items@ == items
                    && sl.stats == stats && re as int == e && i < e <= s@.len(),
            }
        }),
{
    match parse_slice_raw(s, i, 6) {
        None => None,
        Some((raw, lpl, lpt, e)) => {
            let mut items: Vec<BalanceSheetStatement> = Vec::new();
            let ok = balance_items_into(&raw, 0, &mut items);
            proof {
                assert(raw@.map_values(|v: Vec<Option<i64>>| v@).skip(0) =~= raw@.map_values(
                    |v: Vec<Option<i64>>| v@,
                ));
            }
            if ok {
                proof {
                    match items_from(
                        raw@.map_values(|v: Vec<Option<i64>>| v@),
                        |fs: Seq<Option<i64>>| balance_from_fields(fs),
                    ) {
                        Some(its) => {
                            assert(items@ =~= Seq::<BalanceSheetStatement>::empty() + its);
                        },
                        None => {},
                    }
                }
                Some(
                    (
                        StatementSlice {
                            items,
                            stats: FetchStats { last_pull_length: lpl, last_pull_time: lpt },
                        },
                        e,
                    ),
                )
            } else {
                None
            }
        },
    }
}


fn cash_items_into(raw: &Vec<Vec<Option<i64>>>, k: usize, out: &mut Vec<CashFlowStatement>) -> (ok: bool)
    requires
        k <= raw@.len(),
    ensures
        ({
            let m = items_from(
                raw@.map_values(|v: Vec<Option<i64>>| v@).skip(k as int),
                |fs: Seq<Option<i64>>| cash_from_fields(fs),
            );
            match m {
                None => !ok,
                Some(items) => ok && final(out)@ == old(out)@ + items,
            }
        }),
    decreases raw@.len() - k,
{
    let ghost mseq = raw@.map_values(|v: Vec<Option<i64>>| v@).skip(k as int);
    if k < raw.len() {
        proof {
            assert(mseq[0] == raw@[k as int]@);
            assert(mseq.drop_first() =~= raw@.map_values(|v: Vec<Option<i64>>| v@).skip(k + 1));
        }
        match cash_of_fields(&raw[k]) {
            None => false,
            Some(r) => {
                out.push(r);
                let ok2 = cash_items_into(raw, k + 1, out);
                proof {
                    match items_from(mseq.drop_first(), |fs: Seq<Option<i64>>| cash_from_fields(fs)) {
                        Some(t) => {
                            assert(out@ =~= old(out)@ + (seq![r] + t));
                        },
                        None => {},
                    }
                }
                ok2
            },
        }
    } else {
        proof {
            assert(mseq.len() == 0);
            assert(out@ =~= out@ + Seq::<CashFlowStatement>::empty());
        }
        true
    }
}

fn parse_cash_slice(s: &Vec<char>, i: usize) -> (r: Option<(StatementSlice<CashFlowStatement>, usize)>)
    requires
        i <= s@.len(),
    ensures
        ({
            let m = slice_from(
                p_slice_raw(s@, i as int, 5),
                |fs: Seq<Option<i64>>| cash_from_fields(fs),
            );
            match m {
                None => r is None,
                Some(((items, stats), e)) => r matches Some((sl, re)) && sl.items@ == items
                    && sl.stats == stats && re as int == e && i < e <= s@.len(),
            }
        }),
{
    match parse_slice_raw(s, i, 5) {
        None => None,
        Some((raw, lpl, lpt, e)) => {
            let mut items: Vec<CashFlowStatement> = Vec::new();
            let ok = cash_items_into(&raw, 0, &mut items);
            proof {
                assert(raw@.map_values(|v: Vec<Option<i64>>| v@).skip(0) =~= raw@.map_values(
                    |v: Vec<Option<i64>>| v@,
                ));
            }
            if ok {
                proof {
                    match items_from(
                        raw@.map_values(|v: Vec<Option<i64>>| v@),
                        |fs: Seq<Option<i64>>| cash_from_fields(fs),
                    ) {
                        Some(its) => {
                            assert(items@ =~= Seq::<CashFlowStatement>::empty() + its);
                        },
                        None => {},
                    }
                }
                Some(
                    (
                        StatementSlice {
                            items,
                            stats: FetchStats { last_pull_length: lpl, last_pull_time: lpt },
                        },
                        e,
                    ),
                )
            } else {
                None
            }
        },
    }
}


fn ratios_items_into(raw: &Vec<Vec<Option<i64>>>, k: usize, out: &mut Vec<Ratios>) -> (ok: bool)
    requires
        k <= raw@.len(),
    ensures
        ({
            let m = items_from(
                raw@.map_values(|v: Vec<Option<i64>>| v@).skip(k as int),
                |fs: Seq<Option<i64>>| ratios_from_fields(fs),
            );
            match m {
                None => !ok,
                Some(items) => ok && final(out)@ == old(out)@ + items,
            }
        }),
    decreases raw@.len() - k,
{
    let ghost mseq = raw@.map_values(|v: Vec<Option<i64>>| v@).skip(k as int);
    if k < raw.len() {
        proof {
            assert(mseq[0] == raw@[k as int]@);
            assert(mseq.drop_first() =~= raw@.map_values(|v: Vec<Option<i64>>| v@).skip(k + 1));
        }
        match ratios_of_fields(&raw[k]) {
            None => false,
            Some(r) => {
                out.push(r);
                let ok2 = ratios_items_into(raw, k + 1, out);
                proof {
                    match items_from(mseq.drop_first(), |fs: Seq<Option<i64>>| ratios_from_fields(fs)) {
                        Some(t) => {
                            assert(out@ =~= old(out)@ + (seq![r] + t));
                        },
                        None => {},
                    }
                }
                ok2
            },
        }
    } else {
        proof {
            assert(mseq.len() == 0);
            assert(out@ =~= out@ + Seq::<Ratios>::empty());
        }
        true
    }
}

fn parse_ratios_slice(s: &Vec<char>, i: usize) -> (r: Option<(StatementSlice<Ratios>, usize)>)
    requires
        i <= s@.len(),
    ensures
        ({
            let m = slice_from(
                p_slice_raw(s@, i as int, 5),
                |fs: Seq<Option<i64>>| ratios_from_fields(fs),
            );
            match m {
                None => r is None,
                Some(((items, stats), e)) => r matches Some((sl, re)) && sl.items@ == items
                    && sl.stats == stats && re as int == e && i < e <= s@.len(),
            }
        }),
{
    match parse_slice_raw(s, i, 5) {
        None => None,
        Some((raw, lpl, lpt, e)) => {
            let mut items: Vec<Ratios> = Vec::new();
            let ok = ratios_items_into(&raw, 0, &mut items);
            proof {
                assert(raw@.map_values(|v: Vec<Option<i64>>| v@).skip(0) =~= raw@.map_values(
                    |v: Vec<Option<i64>>| v@,
                ));
            }
            if ok {
                proof {
                    match items_from(
                        raw@.map_values(|v: Vec<Option<i64>>| v@),
                        |fs: Seq<Option<i64>>| ratios_from_fields(fs),
                    ) {
                        Some(its) => {
                            assert(items@ =~= Seq::<Ratios>::empty() + its);
                        },
                        None => {},
                    }
                }
                Some(
                    (
                        StatementSlice {
                            items,
                            stats: FetchStats { last_pull_length: lpl, last_pull_time: lpt },
                        },
                        e,
                    ),
                )
            } else {
                None
            }
        },
    }
}


fn ratios_ttm_items_into(raw: &Vec<Vec<Option<i64>>>, k: usize, out: &mut Vec<RatiosTTM>) -> (ok: bool)
    requires
        k <= raw@.len(),
    ensures
        ({
            let m = items_from(
                raw@.map_values(|v: Vec<Option<i64>>| v@).skip(k as int),
                |fs: Seq<Option<i64>>| ratios_ttm_from_fields(fs),
            );
            match m {
                None => !ok,
                Some(items) => ok && final(out)@ == old(out)@ + items,
            }
        }),
    decreases raw@.len() - k,
{
    let ghost mseq = raw@.map_values(|v: Vec<Option<i64>>| v@).skip(k as int);
    if k < raw.len() {
        proof {
            assert(mseq[0] == raw@[k as int]@);
            assert(mseq.drop_first() =~= raw@.map_values(|v: Vec<Option<i64>>| v@).skip(k + 1));
        }
        match ratios_ttm_of_fields(&raw[k]) {
            None => false,
            Some(r) => {
                out.push(r);
                let ok2 = ratios_ttm_items_into(raw, k + 1, out);
                proof {
                    match items_from(mseq.drop_first(), |fs: Seq<Option<i64>>| ratios_ttm_from_fields(fs)) {
                        Some(t) => {
                            assert(out@ =~= old(out)@ + (seq![r] + t));
                        },
                        None => {},
                    }
                }
                ok2
            },
        }
    } else {
        proof {
            assert(mseq.len() == 0);
            assert(out@ =~= out@ + Seq::<RatiosTTM>::empty());
        }
        true
    }
}

fn parse_ratios_ttm_slice(s: &Vec<char>, i: usize) -> (r: Option<(StatementSlice<RatiosTTM>, usize)>)
    requires
        i <= s@.len(),
    ensures
        ({
            let m = slice_from(
                p_slice_raw(s@, i as int, 3),
                |fs: Seq<Option<i64>>| ratios_ttm_from_fields(fs),
            );
            match m {
                None => r is None,
                Some(((items, stats), e)) => r matches Some((sl, re)) && sl.items@ == items
                    && sl.stats == stats && re as int == e && i < e <= s@.len(),
            }
        }),
{
    match parse_slice_raw(s, i, 3) {
        None => None,
        Some((raw, lpl, lpt, e)) => {
            let mut items: Vec<RatiosTTM> = Vec::new();
            let ok = ratios_ttm_items_into(&raw, 0, &mut items);
            proof {
                assert(raw@.map_values(|v: Vec<Option<i64>>| v@).skip(0) =~= raw@.map_values(
                    |v: Vec<Option<i64>>| v@,
                ));
            }
            if ok {
                proof {
                    match items_from(
                        raw@.map_values(|v: Vec<Option<i64>>| v@),
                        |fs: Seq<Option<i64>>| ratios_ttm_from_fields(fs),
                    ) {
                        Some(its) => {
                            assert(items@ =~= Seq::<RatiosTTM>::empty() + its);
                        },
                        None => {},
                    }
                }
                Some(
                    (
                        StatementSlice {
                            items,
                            stats: FetchStats { last_pull_length: lpl, last_pull_time: lpt },
                        },
                        e,
                    ),
                )
            } else {
                None
            }
        },
    }
}


fn key_metrics_items_into(raw: &Vec<Vec<Option<i64>>>, k: usize, out: &mut Vec<KeyMetrics>) -> (ok: bool)
    requires
        k <= raw@.len(),
    ensures
        ({
            let m = items_from(
                raw@.map_values(|v: Vec<Option<i64>>| v@).skip(k as int),
                |fs: Seq<Option<i64>>| key_metrics_from_fields(fs),
            );
            match m {
                None => !ok,
                Some(items) => ok && final(out)@ == old(out)@ + items,
            }
        }),
    decreases raw@.len() - k,
{
    let ghost mseq = raw@.map_values(|v: Vec<Option<i64>>| v@).skip(k as int);
    if k < raw.len() {
        proof {
            assert(mseq[0] == raw@[k as int]@);
            assert(mseq.drop_first() =~= raw@.map_values(|v: Vec<Option<i64>>| v@).skip(k + 1));
        }
        match key_metrics_of_fields(&raw[k]) {
            None => false,
            Some(r) => {
                out.push(r);
                let ok2 = key_metrics_items_into(raw, k + 1, out);
                proof {
                    match items_from(mseq.drop_first(), |fs: Seq<Option<i64>>| key_metrics_from_fields(fs)) {
                        Some(t) => {
                            assert(out@ =~= old(out)@ + (seq![r] + t));
                        },
                        None => {},
                    }
                }
                ok2
            },
        }
    } else {
        proof {
            assert(mseq.len() == 0);
            assert(out@ =~= out@ + Seq::<KeyMetrics>::empty());
        }
        true
    }
}

fn parse_key_metrics_slice(s: &Vec<char>, i: usize) -> (r: Option<(StatementSlice<KeyMetrics>, usize)>)
    requires
        i <= s@.len(),
    ensures
        ({
            let m = slice_from(
                p_slice_raw(s@, i as int, 6),
                |fs: Seq<Option<i64>>| key_metrics_from_fields(fs),
            );
            match m {
                None => r is None,
                Some(((items, stats), e)) => r matches Some((sl, re)) && sl.items@ == items
                    && sl.stats == stats && re as int == e && i < e <= s@.len(),
            }
        }),
{
    match parse_slice_raw(s, i, 6) {
        None => None,
        Some((raw, lpl, lpt, e)) => {
            let mut items: Vec<KeyMetrics> = Vec::new();
            let ok = key_metrics_items_into(&raw, 0, &mut items);
            proof {
                assert(raw@.map_values(|v: Vec<Option<i64>>| v@).skip(0) =~= raw@.map_values(
                    |v: Vec<Option<i64>>| v@,
                ));
            }
            if ok {
                proof {
                    match items_from(
                        raw@.map_values(|v: Vec<Option<i64>>| v@),
                        |fs: Seq<Option<i64>>| key_metrics_from_fields(fs),
                    ) {
                        Some(its) => {
                            assert(items@ =~= Seq::<KeyMetrics>::empty() + its);
                        },
                        None => {},
                    }
                }
                Some(
                    (
                        StatementSlice {
                            items,
                            stats: FetchStats { last_pull_length: lpl, last_pull_time: lpt },
                        },
                        e,
                    ),
                )
            } else {
                None
            }
        },
    }
}


fn key_metrics_ttm_items_into(raw: &Vec<Vec<Option<i64>>>, k: usize, out: &mut Vec<KeyMetricsTTM>) -> (ok: bool)
    requires
        k <= raw@.len(),
    ensures
        ({
            let m = items_from(
                raw@.map_values(|v: Vec<Option<i64>>| v@).skip(k as int),
                |fs: Seq<Option<i64>>| key_metrics_ttm_from_fields(fs),
            );
            match m {
                None => !ok,
                Some(items) => ok && final(out)@ == old(out)@ + items,
            }
        }),
    decreases raw@.len() - k,
{
    let ghost mseq = raw@.map_values(|v: Vec<Option<i64>>| v@).skip(k as int);
    if k < raw.len() {
        proof {
            assert(mseq[0] == raw@[k as int]@);
            assert(mseq.drop_first() =~= raw@.map_values(|v: Vec<Option<i64>>| v@).skip(k + 1));
        }
        match key_metrics_ttm_of_fields(&raw[k]) {
            None => false,
            Some(r) => {
                out.push(r);
                let ok2 = key_metrics_ttm_items_into(raw, k + 1, out);
                proof {
                    match items_from(mseq.drop_first(), |fs: Seq<Option<i64>>| key_metrics_ttm_from_fields(fs)) {
                        Some(t) => {
                            assert(out@ =~= old(out)@ + (seq![r] + t));
                        },
                        None => {},
                    }
                }
                ok2
            },
        }
    } else {
        proof {
            assert(mseq.len() == 0);
            assert(out@ =~= out@ + Seq::<KeyMetricsTTM>::empty());
        }
        true
    }
}

fn parse_key_metrics_ttm_slice(s: &Vec<char>, i: usize) -> (r: Option<(StatementSlice<KeyMetricsTTM>, usize)>)
    requires
        i <= s@.len(),
    ensures
        ({
            let m = slice_from(
                p_slice_raw(s@, i as int, 4),
                |fs: Seq<Option<i64>>| key_metrics_ttm_from_fields(fs),
            );
            match m {
                None => r is None,
                Some(((items, stats), e)) => r matches Some((sl, re)) && sl.items@ == items
                    && sl.stats == stats && re as int == e && i < e <= s@.len(),
            }
        }),
{
    match parse_slice_raw(s, i, 4) {
        None => None,
        Some((raw, lpl, lpt, e)) => {
            let mut items: Vec<KeyMetricsTTM> = Vec::new();
            let ok = key_metrics_ttm_items_into(&raw, 0, &mut items);
            proof {
                assert(raw@.map_values(|v: Vec<Option<i64>>| v@).skip(0) =~= raw@.map_values(
                    |v: Vec<Option<i64>>| v@,
                ));
            }
            if ok {
                proof {
                    match items_from(
                        raw@.map_values(|v: Vec<Option<i64>>| v@),
                        |fs: Seq<Option<i64>>| key_metrics_ttm_from_fields(fs),
                    ) {
                        Some(its) => {
                            assert(items@ =~= Seq::<KeyMetricsTTM>::empty() + its);
                        },
                        None => {},
                    }
                }
                Some(
                    (
                        StatementSlice {
                            items,
                            stats: FetchStats { last_pull_length: lpl, last_pull_time: lpt },
                        },
                        e,
                    ),
                )
            } else {
                None
            }
        },
    }
}


fn profile_items_into(raw: &Vec<Vec<Option<i64>>>, k: usize, out: &mut Vec<Profile>) -> (ok: bool)
    requires
        k <= raw@.len(),
    ensures
        ({
            let m = items_from(
                raw@.map_values(|v: Vec<Option<i64>>| v@).skip(k as int),
                |fs: Seq<Option<i64>>| profile_from_fields(fs),
            );
            match m {
                None => !ok,
                Some(items) => ok && final(out)@ == old(out)@ + items,
            }
        }),
    decreases raw@.len() - k,
{
    let ghost mseq = raw@.map_values(|v: Vec<Option<i64>>| v@).skip(k as int);
    if k < raw.len() {
        proof {
            assert(mseq[0] == raw@[k as int]@);
            assert(mseq.drop_first() =~= raw@.map_values(|v: Vec<Option<i64>>| v@).skip(k + 1));
        }
        match profile_of_fields(&raw[k]) {
            None => false,
            Some(r) => {
                out.push(r);
                let ok2 = profile_items_into(raw, k + 1, out);
                proof {
                    match items_from(mseq.drop_first(), |fs: Seq<Option<i64>>| profile_from_fields(fs)) {
                        Some(t) => {
                            assert(out@ =~= old(out)@ + (seq![r] + t));
                        },
                        None => {},
                    }
                }
                ok2
            },
        }
    } else {
        proof {
            assert(mseq.len() == 0);
            assert(out@ =~= out@ + Seq::<Profile>::empty());
        }
        true
    }
}

fn parse_profile_slice(s: &Vec<char>, i: usize) -> (r: Option<(StatementSlice<Profile>, usize)>)
    requires
        i <= s@.len(),
    ensures
        ({
            let m = slice_from(
                p_slice_raw(s@, i as int, 8),
                |fs: Seq<Option<i64>>| profile_from_fields(fs),
            );
            match m {
                None => r is None,
                Some(((items, stats), e)) => r matches Some((sl, re)) && sl.items@ == items
                    && sl.stats == stats && re as int == e && i < e <= s@.len(),
            }
        }),
{
    match parse_slice_raw(s, i, 8) {
        None => None,
        Some((raw, lpl, lpt, e)) => {
            let mut items: Vec<Profile> = Vec::new();
            let ok = profile_items_into(&raw, 0, &mut items);
            proof {
                assert(raw@.map_values(|v: Vec<Option<i64>>| v@).skip(0) =~= raw@.map_values(
                    |v: Vec<Option<i64>>| v@,
                ));
            }
            if ok {
                proof {
                    match items_from(
                        raw@.map_values(|v: Vec<Option<i64>>| v@),
                        |fs: Seq<Option<i64>>| profile_from_fields(fs),
                    ) {
                        Some(its) => {
                            assert(items@ =~= Seq::<Profile>::empty() + its);
                        },
                        None => {},
                    }
                }
                Some(
                    (
                        StatementSlice {
                            items,
                            stats: FetchStats { last_pull_length: lpl, last_pull_time: lpt },
                        },
                        e,
                    ),
                )
            } else {
                None
            }
        },
    }
}


fn dcf_items_into(raw: &Vec<Vec<Option<i64>>>, k: usize, out: &mut Vec<AdvancedLeveredDiscountedCashFlow>) -> (ok: bool)
    requires
        k <= raw@.len(),
    ensures
        ({
            let m = items_from(
                raw@.map_values(|v: Vec<Option<i64>>| v@).skip(k as int),
                |fs: Seq<Option<i64>>| dcf_from_fields(fs),
            );
            match m {
                None => !ok,
                Some(items) => ok && final(out)@ == old(out)@ + items,
            }
        }),
    decreases raw@.len() - k,
{
    let ghost mseq = raw@.map_values(|v: Vec<Option<i64>>| v@).skip(k as int);
    if k < raw.len() {
        proof {
            assert(mseq[0] == raw@[k as int]@);
            assert(mseq.drop_first() =~= raw@.map_values(|v: Vec<Option<i64>>| v@).skip(k + 1));
        }
        match dcf_of_fields(&raw[k]) {
            None => false,
            Some(r) => {
                out.push(r);
                let ok2 = dcf_items_into(raw, k + 1, out);
                proof {
                    match items_from(mseq.drop_first(), |fs: Seq<Option<i64>>| dcf_from_fields(fs)) {
                        Some(t) => {
                            assert(out@ =~= old(out)@ + (seq![r] + t));
                        },
                        None => {},
                    }
                }
                ok2
            },
        }
    } else {
        proof {
            assert(mseq.len() == 0);
            assert(out@ =~= out@ + Seq::<AdvancedLeveredDiscountedCashFlow>::empty());
        }
        true
    }
}

fn parse_dcf_slice(s: &Vec<char>, i: usize) -> (r: Option<(StatementSlice<AdvancedLeveredDiscountedCashFlow>, usize)>)
    requires
        i <= s@.len(),
    ensures
        ({
            let m = slice_from(
                p_slice_raw(s@, i as int, 2),
                |fs: Seq<Option<i64>>| dcf_from_fields(fs),
            );
            match m {
                None => r is None,
                Some(((items, stats), e)) => r matches Some((sl, re)) && sl.items@ == items
                    && sl.stats == stats && re as int == e && i < e <= s@.len(),
            }
        }),
{
    match parse_slice_raw(s, i, 2) {
        None => None,
        Some((raw, lpl, lpt, e)) => {
            let mut items: Vec<AdvancedLeveredDiscountedCashFlow> = Vec::new();
            let ok = dcf_items_into(&raw, 0, &mut items);
            proof {
                assert(raw@.map_values(|v: Vec<Option<i64>>| v@).skip(0) =~= raw@.map_values(
                    |v: Vec<Option<i64>>| v@,
                ));
            }
            if ok {
                proof {
                    match items_from(
                        raw@.map_values(|v: Vec<Option<i64>>| v@),
                        |fs: Seq<Option<i64>>| dcf_from_fields(fs),
                    ) {
                        Some(its) => {
                            assert(items@ =~= Seq::<AdvancedLeveredDiscountedCashFlow>::empty() + its);
                        },
                        None => {},
                    }
                }
                Some(
                    (
                        StatementSlice {
                            items,
                            stats: FetchStats { last_pull_length: lpl, last_pull_time: lpt },
                        },
                        e,
                    ),
                )
            } else {
                None
            }
        },
    }
}


// ---------------------------------------------------------------------
// Stores, records and the whole cache.
// ---------------------------------------------------------------------

/// Parses a statement store: its seven slices in their fixed order.
#[verifier::opaque]
pub open spec fn p_statements(s: Seq<char>, i: int) -> Option<(StatementsModel, int)> {
    match p_char(s, i, '[') {
        None => None,
        Some(e0) => match slice_from(
            p_slice_raw(s, e0, 11),
            |fs: Seq<Option<i64>>| income_from_fields_raw(fs),
        ) {
            None => None,
            Some((ai, e1)) => match p_char(s, e1, ',') {
                None => None,
                Some(e2) => match slice_from(
                    p_slice_raw(s, e2, 11),
                    |fs: Seq<Option<i64>>| income_from_fields(fs),
                ) {
                    None => None,
                    Some((qi, e3)) => match p_char(s, e3, ',') {
                        None => None,
                        Some(e4) => match slice_from(
                            p_slice_raw(s, e4, 11),
                            |fs: Seq<Option<i64>>| income_from_fields_raw(fs),
                        ) {
                            None => None,
                            Some((ti, e5)) => match p_char(s, e5, ',') {
                                None => None,
                                Some(e6) => match slice_from(
                                    p_slice_raw(s, e6, 6),
                                    |fs: Seq<Option<i64>>| balance_from_fields(fs),
                                ) {
                                    None => None,
                                    Some((ab, e7)) => match p_char(s, e7, ',') {
                                        None => None,
                                        Some(e8) => match slice_from(
                                            p_slice_raw(s, e8, 6),
                                            |fs: Seq<Option<i64>>| balance_from_fields(fs),
                                        ) {
                                            None => None,
                                            Some((qb, e9)) => match p_char(s, e9, ',') {
                                                None => None,
                                                Some(e10) => match slice_from(
                                                    p_slice_raw(s, e10, 5),
                                                    |fs: Seq<Option<i64>>| cash_from_fields(fs),
                                                ) {
                                                    None => None,
                                                    Some((ac, e11)) => match p_char(s, e11, ',') {
                                                        None => None,
                                                        Some(e12) => match slice_from(
                                                            p_slice_raw(s, e12, 5),
                                                            |fs: Seq<Option<i64>>| cash_from_fields(fs),
                                                        ) {
                                                            None => None,
                                                            Some((qc, e13)) => match p_char(s, e13, ']') {
                                                                None => None,
                                                                Some(e14) => Some(
                                                                    (
                                                                        StatementsModel {
                                                                            annual_income: SliceModel { items: ai.0, stats: ai.1 },
                                                                            quarter_income: SliceModel { items: qi.0, stats: qi.1 },
                                                                            ttm_income: SliceModel { items: ti.0, stats: ti.1 },
                                                                            annual_balance: SliceModel { items: ab.0, stats: ab.1 },
                                                                            quarter_balance: SliceModel { items: qb.0, stats: qb.1 },
                                                                            annual_cash: SliceModel { items: ac.0, stats: ac.1 },
                                                                            quarter_cash: SliceModel { items: qc.0, stats: qc.1 },
                                                                        },
                                                                        e14,
                                                                    ),
                                                                ),
                                                            },
                                                        },
                                                    },
                                                },
                                            },
                                        },
                                    },
                                },
                            },
                        },
                    },
                },
            },
        },
    }
}

/// Parses a metric store: its six slices in their fixed order.
#[verifier::opaque]
pub open spec fn p_metrics(s: Seq<char>, i: int) -> Option<(MetricsModel, int)> {
    match p_char(s, i, '[') {
        None => None,
        Some(e0) => match slice_from(
            p_slice_raw(s, e0, 5),
            |fs: Seq<Option<i64>>| ratios_from_fields(fs),
        ) {
            None => None,
            Some((ar, e1)) => match p_char(s, e1, ',') {
                None => None,
                Some(e2) => match slice_from(
                    p_slice_raw(s, e2, 5),
                    |fs: Seq<Option<i64>>| ratios_from_fields(fs),
                ) {
                    None => None,
                    Some((qr, e3)) => match p_char(s, e3, ',') {
                        None => None,
                        Some(e4) => match slice_from(
                            p_slice_raw(s, e4, 3),
                            |fs: Seq<Option<i64>>| ratios_ttm_from_fields(fs),
                        ) {
                            None => None,
                            Some((tr, e5)) => match p_char(s, e5, ',') {
                                None => None,
                                Some(e6) => match slice_from(
                                    p_slice_raw(s, e6, 6),
                                    |fs: Seq<Option<i64>>| key_metrics_from_fields(fs),
                                ) {
                                    None => None,
                                    Some((ak, e7)) => match p_char(s, e7, ',') {
                                        None => None,
                                        Some(e8) => match slice_from(
                                            p_slice_raw(s, e8, 6),
                                            |fs: Seq<Option<i64>>| key_metrics_from_fields(fs),
                                        ) {
                                            None => None,
                                            Some((qk, e9)) => match p_char(s, e9, ',') {
                                                None => None,
                                                Some(e10) => match slice_from(
                                                    p_slice_raw(s, e10, 4),
                                                    |fs: Seq<Option<i64>>| key_metrics_ttm_from_fields(fs),
                                                ) {
                                                    None => None,
                                                    Some((tk, e11)) => match p_char(s, e11, ']') {
                                                        None => None,
                                                        Some(e12) => Some(
                                                            (
                                                                MetricsModel {
                                                                    annual_ratios: SliceModel { items: ar.0, stats: ar.1 },
                                                                    quarter_ratios: SliceModel { items: qr.0, stats: qr.1 },
                                                                    ttm_ratios: SliceModel { items: tr.0, stats: tr.1 },
                                                                    annual_key_metrics: SliceModel { items: ak.0, stats: ak.1 },
                                                                    quarter_key_metrics: SliceModel { items: qk.0, stats: qk.1 },
                                                                    ttm_key_metrics: SliceModel { items: tk.0, stats: tk.1 },
                                                                },
                                                                e12,
                                                            ),
                                                        ),
                                                    },
                                                },
                                            },
                                        },
                                    },
                                },
                            },
                        },
                    },
                },
            },
        },
    }
}

/// Parses a profile store: its two slices.
#[verifier::opaque]
pub open spec fn p_other(s: Seq<char>, i: int) -> Option<(OtherModel, int)> {
    match p_char(s, i, '[') {
        None => None,
        Some(e0) => match slice_from(
            p_slice_raw(s, e0, 8),
            |fs: Seq<Option<i64>>| profile_from_fields(fs),
        ) {
            None => None,
            Some((pr, e1)) => match p_char(s, e1, ',') {
                None => None,
                Some(e2) => match slice_from(
                    p_slice_raw(s, e2, 2),
                    |fs: Seq<Option<i64>>| dcf_from_fields(fs),
                ) {
                    None => None,
                    Some((dc, e3)) => match p_char(s, e3, ']') {
                        None => None,
                        Some(e4) => Some(
                            (
                                OtherModel {
                                    profile: SliceModel { items: pr.0, stats: pr.1 },
                                    dcf: SliceModel { items: dc.0, stats: dc.1 },
                                },
                                e4,
                            ),
                        ),
                    },
                },
            },
        },
    }
}

/// Parses one cache record.
#[verifier::opaque]
pub open spec fn p_stock(s: Seq<char>, i: int) -> Option<(StockModel, int)> {
    match p_char(s, i, '[') {
        None => None,
        Some(e0) => match p_ci(s, e0) {
            None => None,
            Some((ci, e1)) => match p_char(s, e1, ',') {
                None => None,
                Some(e2) => match p_str(s, e2) {
                    None => None,
                    Some((t, e3)) => match p_char(s, e3, ',') {
                        None => None,
                        Some(e4) => match p_statements(s, e4) {
                            None => None,
                            Some((st, e5)) => match p_char(s, e5, ',') {
                                None => None,
                                Some(e6) => match p_metrics(s, e6) {
                                    None => None,
                                    Some((me, e7)) => match p_char(s, e7, ',') {
                                        None => None,
                                        Some(e8) => match p_other(s, e8) {
                                            None => None,
                                            Some((ot, e9)) => match p_char(s, e9, ']') {
                                                None => None,
                                                Some(e10) => Some(
                                                    (
                                                        StockModel {
                                                            cache_index: ci,
                                                            ticker: t,
                                                            statements: st,
                                                            metrics: me,
                                                            other: ot,
                                                        },
                                                        e10,
                                                    ),
                                                ),
                                            },
                                        },
                                    },
                                },
                            },
                        },
                    },
                },
            },
        },
    }
}

/// Parses the non-empty tail of the record array, up to and including
/// the closing bracket.
pub open spec fn p_stocks_tail(s: Seq<char>, i: int) -> Option<(Seq<StockModel>, int)>
    decreases s.len() - i
        when 0 <= i <= s.len()
{
    match p_stock(s, i) {
        None => None,
        Some((m, e)) => if !(i < e <= s.len()) {
            None
        } else if e < s.len() && s[e] == ',' {
            match p_stocks_tail(s, e + 1) {
                None => None,
                Some((ms, e2)) => Some((seq![m] + ms, e2)),
            }
        } else if e < s.len() && s[e] == ']' {
            Some((seq![m], e + 1))
        } else {
            None
        },
    }
}

/// Parses the whole persisted cache.
pub open spec fn p_cache(s: Seq<char>, i: int) -> Option<(Seq<StockModel>, int)> {
    match p_char(s, i, '[') {
        None => None,
        Some(e) => if e < s.len() && s[e] == ']' {
            Some((Seq::empty(), e + 1))
        } else {
            p_stocks_tail(s, e)
        },
    }
}

/// What decoding a persisted text yields: the cache, when the text is
/// exactly one well-formed encoding.
pub open spec fn spec_decode(s: Seq<char>) -> Option<Seq<StockModel>> {
    match p_cache(s, 0) {
        None => None,
        Some((ms, e)) => if e == s.len() {
            Some(ms)
        } else {
            None
        },
    }
}

#[verifier::rlimit(100)]
fn parse_statements(s: &Vec<char>, i: usize) -> (r: Option<(Statements, usize)>)
    requires
        i <= s@.len(),
    ensures
        match p_statements(s@, i as int) {
            None => r is None,
            Some((m, e)) => r matches Some((st, re)) && statements_model(st) == m && re as int == e
                && i < e <= s@.len(),
        },
{
    proof {
        reveal(p_statements);
    }
    match parse_char(s, i, '[') {
        None => None,
        Some(e0) => match parse_income_raw_slice(s, e0) {
            None => None,
            Some((ai, e1)) => match parse_char(s, e1, ',') {
                None => None,
                Some(e2) => match parse_income_checked_slice(s, e2) {
                    None => None,
                    Some((qi, e3)) => match parse_char(s, e3, ',') {
                        None => None,
                        Some(e4) => match parse_income_raw_slice(s, e4) {
                            None => None,
                            Some((ti, e5)) => match parse_char(s, e5, ',') {
                                None => None,
                                Some(e6) => match parse_balance_slice(s, e6) {
                                    None => None,
                                    Some((ab, e7)) => match parse_char(s, e7, ',') {
                                        None => None,
                                        Some(e8) => match parse_balance_slice(s, e8) {
                                            None => None,
                                            Some((qb, e9)) => match parse_char(s, e9, ',') {
                                                None => None,
                                                Some(e10) => match parse_cash_slice(s, e10) {
                                                    None => None,
                                                    Some((ac, e11)) => match parse_char(s, e11, ',') {
                                                        None => None,
                                                        Some(e12) => match parse_cash_slice(s, e12) {
                                                            None => None,
                                                            Some((qc, e13)) => match parse_char(s, e13, ']') {
                                                                None => None,
                                                                Some(e14) => Some(
                                                                    (
                                                                        Statements {
                                                                            annual_income: ai,
                                                                            quarter_income: qi,
                                                                            ttm_income: ti,
                                                                            annual_balance: ab,
                                                                            quarter_balance: qb,
                                                                            annual_cash: ac,
                                                                            quarter_cash: qc,
                                                                        },
                                                                        e14,
                                                                    ),
                                                                ),
                                                            },
                                                        },
                                                    },
                                                },
                                            },
                                        },
                                    },
                                },
                            },
                        },
                    },
                },
            },
        },
    }
}

#[verifier::rlimit(100)]
fn parse_metrics(s: &Vec<char>, i: usize) -> (r: Option<(Metrics, usize)>)
    requires
        i <= s@.len(),
    ensures
        match p_metrics(s@, i as int) {
            None => r is None,
            Some((m, e)) => r matches Some((me, re)) && metrics_model(me) == m && re as int == e
                && i < e <= s@.len(),
        },
{
    proof {
        reveal(p_metrics);
    }
    match parse_char(s, i, '[') {
        None => None,
        Some(e0) => match parse_ratios_slice(s, e0) {
            None => None,
            Some((ar, e1)) => match parse_char(s, e1, ',') {
                None => None,
                Some(e2) => match parse_ratios_slice(s, e2) {
                    None => None,
                    Some((qr, e3)) => match parse_char(s, e3, ',') {
                        None => None,
                        Some(e4) => match parse_ratios_ttm_slice(s, e4) {
                            None => None,
                            Some((tr, e5)) => match parse_char(s, e5, ',') {
                                None => None,
                                Some(e6) => match parse_key_metrics_slice(s, e6) {
                                    None => None,
                                    Some((ak, e7)) => match parse_char(s, e7, ',') {
                                        None => None,
                                        Some(e8) => match parse_key_metrics_slice(s, e8) {
                                            None => None,
                                            Some((qk, e9)) => match parse_char(s, e9, ',') {
                                                None => None,
                                                Some(e10) => match parse_key_metrics_ttm_slice(s, e10) {
                                                    None => None,
                                                    Some((tk, e11)) => match parse_char(s, e11, ']') {
                                                        None => None,
                                                        Some(e12) => Some(
                                                            (
                                                                Metrics {
                                                                    annual_ratios: ar,
                                                                    quarter_ratios: qr,
                                                                    ttm_ratios: tr,
                                                                    annual_key_metrics: ak,
                                                                    quarter_key_metrics: qk,
                                                                    ttm_key_metrics: tk,
                                                                },
                                                                e12,
                                                            ),
                                                        ),
                                                    },
                                                },
                                            },
                                        },
                                    },
                                },
                            },
                        },
                    },
                },
            },
        },
    }
}

fn parse_other(s: &Vec<char>, i: usize) -> (r: Option<(Other, usize)>)
    requires
        i <= s@.len(),
    ensures
        match p_other(s@, i as int) {
            None => r is None,
            Some((m, e)) => r matches Some((ot, re)) && other_model(ot) == m && re as int == e
                && i < e <= s@.len(),
        },
{
    proof {
        reveal(p_other);
    }
    match parse_char(s, i, '[') {
        None => None,
        Some(e0) => match parse_profile_slice(s, e0) {
            None => None,
            Some((pr, e1)) => match parse_char(s, e1, ',') {
                None => None,
                Some(e2) => match parse_dcf_slice(s, e2) {
                    None => None,
                    Some((dc, e3)) => match parse_char(s, e3, ']') {
                        None => None,
                        Some(e4) => Some((Other { profile: pr, dcf: dc }, e4)),
                    },
                },
            },
        },
    }
}

#[verifier::rlimit(100)]
fn parse_stock(s: &Vec<char>, i: usize) -> (r: Option<(Stock, usize)>)
    requires
        i <= s@.len(),
    ensures
        match p_stock(s@, i as int) {
            None => r is None,
            Some((m, e)) => r matches Some((st, re)) && stock_model(st) == m && re as int == e
                && i < e <= s@.len(),
        },
{
    proof {
        reveal(p_stock);
    }
    match parse_char(s, i, '[') {
        None => None,
        Some(e0) => match parse_ci(s, e0) {
            None => None,
            Some((ci, e1)) => match parse_char(s, e1, ',') {
                None => None,
                Some(e2) => match parse_str(s, e2) {
                    None => None,
                    Some((t, e3)) => match parse_char(s, e3, ',') {
                        None => None,
                        Some(e4) => match parse_statements(s, e4) {
                            None => None,
                            Some((st, e5)) => match parse_char(s, e5, ',') {
                                None => None,
                                Some(e6) => match parse_metrics(s, e6) {
                                    None => None,
                                    Some((me, e7)) => match parse_char(s, e7, ',') {
                                        None => None,
                                        Some(e8) => match parse_other(s, e8) {
                                            None => None,
                                            Some((ot, e9)) => match parse_char(s, e9, ']') {
                                                None => None,
                                                Some(e10) => Some(
                                                    (
                                                        Stock {
                                                            cache_index: ci,
                                                            ticker: t,
                                                            statements: st,
                                                            metrics: me,
                                                            other: ot,
                                                        },
                                                        e10,
                                                    ),
                                                ),
                                            },
                                        },
                                    },
                                },
                            },
                        },
                    },
                },
            },
        },
    }
}

fn parse_stocks_tail(s: &Vec<char>, i: usize, out: &mut Vec<Stock>) -> (r: Option<usize>)
    requires
        i <= s@.len(),
    ensures
        match p_stocks_tail(s@, i as int) {
            None => r is None,
            Some((ms, e)) => r matches Some(re) && re as int == e && cache_model(final(out)@)
                == cache_model(old(out)@) + ms && i < e <= s@.len(),
        },
    decreases s@.len() - i,
{
    match parse_stock(s, i) {
        None => None,
        Some((st, e)) => {
            let ghost stm = stock_model(st);
            out.push(st);
            if e < s.len() && s[e] == ',' {
                let r = parse_stocks_tail(s, e + 1, out);
                proof {
                    match p_stocks_tail(s@, i as int) {
                        Some((ms, e2)) => {
                            assert(cache_model(old(out)@.push(st)) =~= cache_model(old(out)@)
                                + seq![stm]);
                            assert(cache_model(out@) =~= cache_model(old(out)@) + ms);
                        },
                        None => {},
                    }
                }
                r
            } else if e < s.len() && s[e] == ']' {
                proof {
                    assert(cache_model(out@) =~= cache_model(old(out)@) + seq![stm]);
                }
                Some(e + 1)
            } else {
                None
            }
        },
    }
}

/// Decodes a persisted text back into the cache's records.  Yields
/// nothing unless the whole text is one well-formed encoding.
pub fn decode_cache(s: &Vec<char>) -> (r: Option<Vec<Stock>>)
    ensures
        match spec_decode(s@) {
            None => r is None,
            Some(ms) => r matches Some(v) && cache_model(v@) == ms,
        },
{
    match parse_char(s, 0, '[') {
        None => None,
        Some(e) => {
            if e < s.len() && s[e] == ']' {
                if e + 1 == s.len() {
                    let empty: Vec<Stock> = Vec::new();
                    proof {
                        assert(cache_model(empty@) =~= Seq::<StockModel>::empty());
                    }
                    Some(empty)
                } else {
                    None
                }
            } else {
                let mut out: Vec<Stock> = Vec::new();
                let ghost out0 = out@;
                match parse_stocks_tail(s, e, &mut out) {
                    None => None,
                    Some(e2) => {
                        if e2 == s.len() {
                            proof {
                                match p_stocks_tail(s@, e as int) {
                                    Some((ms, _)) => {
                                        assert(cache_model(out0) =~= Seq::<StockModel>::empty());
                                        assert(cache_model(out@) =~= ms);
                                    },
                                    None => {},
                                }
                            }
                            Some(out)
                        } else {
                            None
                        }
                    },
                }
            }
        },
    }
}


// ---------------------------------------------------------------------
// Round trip, part one: each parser accepts its encoder's output.
// ---------------------------------------------------------------------

proof fn lemma_subrange_split(s: Seq<char>, i: int, a: Seq<char>, b: Seq<char>)
    requires
        0 <= i,
        i + a.len() + b.len() <= s.len(),
        s.subrange(i, i + a.len() + b.len()) == a + b,
    ensures
        s.subrange(i, i + a.len()) == a,
        s.subrange(i + a.len(), i + a.len() + b.len()) == b,
{
    assert(s.subrange(i, i + a.len()) =~= a) by {
        assert forall|j: int| 0 <= j < a.len() implies s.subrange(i, i + a.len())[j] == a[j] by {
            assert(s.subrange(i, i + a.len() + b.len())[j] == (a + b)[j]);
        }
    }
    assert(s.subrange(i + a.len(), i + a.len() + b.len()) =~= b) by {
        assert forall|j: int|
            0 <= j < b.len() implies s.subrange(i + a.len(), i + a.len() + b.len())[j] == b[j] by {
            assert(s.subrange(i, i + a.len() + b.len())[a.len() + j] == (a + b)[a.len() + j]);
            assert(s.subrange(i, i + a.len() + b.len())[a.len() + j] == s[i + a.len() + j]);
            assert(s.subrange(i + a.len(), i + a.len() + b.len())[j] == s[i + a.len() + j]);
            assert((a + b)[a.len() + j] == b[j]);
        }
    }
}

proof fn lemma_enc_nat_digits(n: nat)
    ensures
        1 <= enc_nat(n).len(),
        forall|j: int| 0 <= j < enc_nat(n).len() ==> dval(#[trigger] enc_nat(n)[j]) >= 0,
        dval(enc_nat(n)[0]) >= 0,
    decreases n,
{
    if n < 10 {
        assert(dval(dchar(n as int)) == n);
    } else {
        lemma_enc_nat_digits(n / 10);
        assert(dval(dchar((n % 10) as int)) == n % 10);
        assert forall|j: int|
            0 <= j < enc_nat(n).len() implies dval(#[trigger] enc_nat(n)[j]) >= 0 by {
            if j < enc_nat(n / 10).len() {
                assert(enc_nat(n)[j] == enc_nat(n / 10)[j]);
            } else {
                assert(enc_nat(n)[j] == dchar((n % 10) as int));
            }
        }
        assert(enc_nat(n)[0] == enc_nat(n / 10)[0]);
    }
}

proof fn lemma_enc_nat_len_bound(n: nat, k: nat)
    requires
        n < pow10(k),
        1 <= k,
    ensures
        enc_nat(n).len() <= k,
    decreases k,
{
    if n < 10 {
    } else {
        assert(pow10(k) == 10 * pow10((k - 1) as nat));
        assert(k >= 2) by {
            if k == 1 {
                assert(pow10(1nat) == 10 * pow10(0nat));
                assert(pow10(0nat) == 1);
            }
        }
        assert(n / 10 < pow10((k - 1) as nat));
        lemma_enc_nat_len_bound(n / 10, (k - 1) as nat);
    }
}

proof fn lemma_digits_end_of(s: Seq<char>, i: int, e: int)
    requires
        0 <= i <= e <= s.len(),
        forall|j: int| i <= j < e ==> dval(#[trigger] s[j]) >= 0,
        e == s.len() || dval(s[e]) < 0,
    ensures
        digits_end(s, i) == e,
    decreases e - i,
{
    if i < e {
        lemma_digits_end_of(s, i + 1, e);
    }
}

proof fn lemma_fold_enc_nat(s: Seq<char>, i: int, n: nat)
    requires
        0 <= i,
        i + enc_nat(n).len() <= s.len(),
        s.subrange(i, i + enc_nat(n).len()) == enc_nat(n),
    ensures
        fold_digits(s, i, i + enc_nat(n).len()) == n,
    decreases n,
{
    lemma_enc_nat_digits(n);
    let l = enc_nat(n).len() as int;
    if n < 10 {
        assert(s[i] == s.subrange(i, i + 1)[0]);
        assert(s[i] == dchar(n as int));
        assert(fold_digits(s, i, i + 1) == fold_digits(s, i, i) * 10 + dval(s[i]));
        assert(dval(dchar(n as int)) == n);
    } else {
        let a = enc_nat(n / 10);
        let b = seq![dchar((n % 10) as int)];
        assert(enc_nat(n) == a + b);
        lemma_subrange_split(s, i, a, b);
        lemma_fold_enc_nat(s, i, n / 10);
        assert(s[i + a.len()] == s.subrange(i + a.len(), i + a.len() + 1)[0]);
        assert(s[i + a.len()] == dchar((n % 10) as int));
        assert(dval(dchar((n % 10) as int)) == n % 10);
        assert(fold_digits(s, i, i + l) == fold_digits(s, i, i + l - 1) * 10 + dval(s[i + l - 1]));
        assert(n / 10 * 10 + n % 10 == n);
    }
}

proof fn lemma_p_nat_complete(s: Seq<char>, i: int, n: nat)
    requires
        0 <= i,
        i + enc_nat(n).len() <= s.len(),
        s.subrange(i, i + enc_nat(n).len()) == enc_nat(n),
        n <= 0x8000_0000_0000_0000,
        i + enc_nat(n).len() == s.len() || dval(s[i + enc_nat(n).len()]) < 0,
    ensures
        p_nat(s, i) == Some((n as int, i + enc_nat(n).len())),
{
    lemma_enc_nat_digits(n);
    let l = enc_nat(n).len() as int;
    assert forall|j: int| i <= j < i + l implies dval(#[trigger] s[j]) >= 0 by {
        assert(s[j] == s.subrange(i, i + l)[j - i]);
    }
    assert(s[i] == s.subrange(i, i + l)[0]);
    assert(dval(s[i]) >= 0);
    lemma_digits_end_of(s, i, i + l);
    reveal_with_fuel(pow10, 21);
    assert(pow10(19) == 10_000_000_000_000_000_000);
    lemma_enc_nat_len_bound(n, 19);
    lemma_fold_enc_nat(s, i, n);
}

proof fn lemma_p_int_complete(s: Seq<char>, i: int, v: int)
    requires
        0 <= i,
        i + enc_int(v).len() <= s.len(),
        s.subrange(i, i + enc_int(v).len()) == enc_int(v),
        -0x8000_0000_0000_0000 <= v <= 0x7FFF_FFFF_FFFF_FFFF,
        i + enc_int(v).len() == s.len() || dval(s[i + enc_int(v).len()]) < 0,
    ensures
        p_int(s, i) == Some((v, i + enc_int(v).len())),
{
    if v < 0 {
        let a = seq!['-'];
        let b = enc_nat((-v) as nat);
        assert(enc_int(v) == a + b);
        lemma_subrange_split(s, i, a, b);
        assert(s[i] == s.subrange(i, i + 1)[0]);
        assert(s[i] == '-');
        lemma_p_nat_complete(s, i + 1, (-v) as nat);
    } else {
        lemma_enc_nat_digits(v as nat);
        assert(s[i] == s.subrange(i, i + enc_int(v).len())[0]);
        assert(dval(s[i]) >= 0);
        assert(dval('-') < 0);
        assert(s[i] != '-');
        lemma_p_nat_complete(s, i, v as nat);
    }
}

proof fn lemma_p_opt_complete(s: Seq<char>, i: int, o: Option<i64>)
    requires
        0 <= i,
        i + enc_opt(o).len() <= s.len(),
        s.subrange(i, i + enc_opt(o).len()) == enc_opt(o),
        o is Some ==> (i + enc_opt(o).len() == s.len() || dval(s[i + enc_opt(o).len()]) < 0),
    ensures
        p_opt(s, i) == Some((o, i + enc_opt(o).len())),
{
    match o {
        None => {
            assert(enc_opt(o) == null_seq());
            assert(s[i] == s.subrange(i, i + 4)[0]);
            assert(s[i + 1] == s.subrange(i, i + 4)[1]);
            assert(s[i + 2] == s.subrange(i, i + 4)[2]);
            assert(s[i + 3] == s.subrange(i, i + 4)[3]);
        },
        Some(v) => {
            let l = enc_opt(o).len() as int;
            assert(s[i] == s.subrange(i, i + l)[0]);
            if v < 0 {
                assert(s[i] == '-');
            } else {
                lemma_enc_nat_digits(v as nat);
                assert(dval(s[i]) >= 0);
            }
            assert(s[i] != 'n');
            lemma_p_int_complete(s, i, v as int);
            assert((v as int) as i64 == v);
        },
    }
}

proof fn lemma_p_ci_complete(s: Seq<char>, i: int, o: Option<usize>)
    requires
        0 <= i,
        i + enc_ci(o).len() <= s.len(),
        s.subrange(i, i + enc_ci(o).len()) == enc_ci(o),
        o matches Some(u) ==> u <= 0x8000_0000_0000_0000,
        o is Some ==> (i + enc_ci(o).len() == s.len() || dval(s[i + enc_ci(o).len()]) < 0),
    ensures
        p_ci(s, i) == Some((o, i + enc_ci(o).len())),
{
    match o {
        None => {
            assert(enc_ci(o) == null_seq());
            assert(s[i] == s.subrange(i, i + 4)[0]);
            assert(s[i + 1] == s.subrange(i, i + 4)[1]);
            assert(s[i + 2] == s.subrange(i, i + 4)[2]);
            assert(s[i + 3] == s.subrange(i, i + 4)[3]);
        },
        Some(u) => {
            let l = enc_ci(o).len() as int;
            lemma_enc_nat_digits(u as nat);
            assert(s[i] == s.subrange(i, i + l)[0]);
            assert(dval(s[i]) >= 0);
            assert(s[i] != 'n');
            lemma_p_nat_complete(s, i, u as nat);
            assert((u as nat) <= usize::MAX);
        },
    }
}

proof fn lemma_p_str_body_complete(s: Seq<char>, i: int, t: Seq<char>)
    requires
        0 <= i,
        i + esc(t).len() + 1 <= s.len(),
        s.subrange(i, i + esc(t).len() + 1) == esc(t) + seq!['"'],
    ensures
        p_str_body(s, i) == Some((t, i + esc(t).len() + 1)),
    decreases t.len(),
{
    if t.len() == 0 {
        assert(esc(t) =~= Seq::<char>::empty());
        assert(s[i] == s.subrange(i, i + 1)[0]);
        assert(s[i] == '"');
    } else {
        let c = t[0];
        let t2 = t.drop_first();
        assert(esc(t) == esc1(c) + esc(t2));
        let a = esc1(c);
        let b = esc(t2) + seq!['"'];
        assert(esc(t) + seq!['"'] =~= a + b);
        lemma_subrange_split(s, i, a, b);
        if c == '"' || c == '\\' {
            assert(a == seq!['\\', c]);
            assert(s[i] == s.subrange(i, i + 2)[0]);
            assert(s[i + 1] == s.subrange(i, i + 2)[1]);
            assert(s[i] == '\\');
            assert(s[i + 1] == c);
            lemma_p_str_body_complete(s, i + 2, t2);
            assert(seq![s[i + 1]] + t2 =~= t);
        } else {
            assert(a == seq![c]);
            assert(s[i] == s.subrange(i, i + 1)[0]);
            assert(s[i] == c);
            lemma_p_str_body_complete(s, i + 1, t2);
            assert(seq![s[i]] + t2 =~= t);
        }
    }
}

proof fn lemma_p_str_complete(s: Seq<char>, i: int, t: Seq<char>)
    requires
        0 <= i,
        i + enc_str(t).len() <= s.len(),
        s.subrange(i, i + enc_str(t).len()) == enc_str(t),
    ensures
        p_str(s, i) == Some((t, i + enc_str(t).len())),
{
    let a = seq!['"'];
    let b = esc(t) + seq!['"'];
    assert(enc_str(t) =~= a + b);
    lemma_subrange_split(s, i, a, b);
    assert(s[i] == s.subrange(i, i + 1)[0]);
    assert(s[i] == '"');
    lemma_p_str_body_complete(s, i + 1, t);
}

proof fn lemma_p_opts_complete(s: Seq<char>, i: int, fs: Seq<Option<i64>>)
    requires
        0 <= i,
        i + enc_opts(fs).len() <= s.len(),
        s.subrange(i, i + enc_opts(fs).len()) == enc_opts(fs),
        fs.len() > 0 ==> (i + enc_opts(fs).len() == s.len() || dval(
            s[i + enc_opts(fs).len()],
        ) < 0),
    ensures
        p_opts(s, i, fs.len()) == Some((fs, i + enc_opts(fs).len())),
    decreases fs.len(),
{
    if fs.len() == 0 {
        assert(fs =~= Seq::<Option<i64>>::empty());
    } else if fs.len() == 1 {
        assert(enc_opts(fs) == enc_opt(fs[0]));
        lemma_p_opt_complete(s, i, fs[0]);
        assert(seq![fs[0]] =~= fs);
    } else {
        let rest = fs.drop_first();
        assert(enc_opts(fs) == enc_opt(fs[0]) + seq![','] + enc_opts(rest));
        let a = enc_opt(fs[0]);
        let b = seq![','] + enc_opts(rest);
        assert(enc_opts(fs) =~= a + b);
        lemma_subrange_split(s, i, a, b);
        let e = i + a.len();
        assert(s[e] == s.subrange(e, e + b.len() as int)[0]);
        assert(s[e] == ',');
        assert(dval(',') < 0);
        lemma_p_opt_complete(s, i, fs[0]);
        let a2 = seq![','];
        let b2 = enc_opts(rest);
        assert(s.subrange(e, e + b.len() as int) == a2 + b2);
        lemma_subrange_split(s, e, a2, b2);
        lemma_p_opts_complete(s, e + 1, rest);
        assert(seq![fs[0]] + rest =~= fs);
    }
}

proof fn lemma_p_rec_complete(s: Seq<char>, i: int, fs: Seq<Option<i64>>)
    requires
        0 <= i,
        i + enc_rec(fs).len() <= s.len(),
        s.subrange(i, i + enc_rec(fs).len()) == enc_rec(fs),
    ensures
        p_rec(s, i, fs.len()) == Some((fs, i + enc_rec(fs).len())),
{
    let a = seq!['['];
    let b = enc_opts(fs) + seq![']'];
    assert(enc_rec(fs) =~= a + b);
    lemma_subrange_split(s, i, a, b);
    assert(s[i] == s.subrange(i, i + 1)[0]);
    assert(s[i] == '[');
    let a2 = enc_opts(fs);
    let b2 = seq![']'];
    assert(s.subrange(i + 1, i + 1 + b.len() as int) == a2 + b2);
    lemma_subrange_split(s, i + 1, a2, b2);
    let e = i + 1 + a2.len();
    assert(s[e] == s.subrange(e, e + 1)[0]);
    assert(s[e] == ']');
    assert(dval(']') < 0);
    lemma_p_opts_complete(s, i + 1, fs);
}

proof fn lemma_p_recs_tail_complete(s: Seq<char>, i: int, rs: Seq<Seq<Option<i64>>>, n: nat)
    requires
        0 <= i,
        rs.len() >= 1,
        forall|k: int| 0 <= k < rs.len() ==> (#[trigger] rs[k]).len() == n,
        i + enc_recs(rs).len() + 1 <= s.len(),
        s.subrange(i, i + enc_recs(rs).len() + 1) == enc_recs(rs) + seq![']'],
    ensures
        p_recs_tail(s, i, n) == Some((rs, i + enc_recs(rs).len() + 1)),
    decreases rs.len(),
{
    if rs.len() == 1 {
        assert(enc_recs(rs) == enc_rec(rs[0]));
        let a = enc_rec(rs[0]);
        let b = seq![']'];
        assert(enc_recs(rs) + seq![']'] =~= a + b);
        lemma_subrange_split(s, i, a, b);
        lemma_p_rec_complete(s, i, rs[0]);
        let e = i + a.len();
        assert(s[e] == s.subrange(e, e + 1)[0]);
        assert(s[e] == ']');
        assert(seq![rs[0]] =~= rs);
        assert(a.len() >= 2) by {
            assert(enc_rec(rs[0]).len() >= 2);
        }
    } else {
        let rest = rs.drop_first();
        assert(enc_recs(rs) == enc_rec(rs[0]) + seq![','] + enc_recs(rest));
        let a = enc_rec(rs[0]);
        let b = seq![','] + enc_recs(rest) + seq![']'];
        assert(enc_recs(rs) + seq![']'] =~= a + b);
        lemma_subrange_split(s, i, a, b);
        lemma_p_rec_complete(s, i, rs[0]);
        let e = i + a.len();
        assert(s[e] == s.subrange(e, e + b.len() as int)[0]);
        assert(s[e] == ',');
        let a2 = seq![','];
        let b2 = enc_recs(rest) + seq![']'];
        assert(s.subrange(e, e + b.len() as int) == a2 + b2) by {
            assert(b =~= a2 + b2);
        }
        lemma_subrange_split(s, e, a2, b2);
        lemma_p_recs_tail_complete(s, e + 1, rest, n);
        assert(seq![rs[0]] + rest =~= rs);
    }
}

proof fn lemma_p_rec_arr_complete(s: Seq<char>, i: int, rs: Seq<Seq<Option<i64>>>, n: nat)
    requires
        0 <= i,
        forall|k: int| 0 <= k < rs.len() ==> (#[trigger] rs[k]).len() == n,
        i + enc_rec_arr(rs).len() <= s.len(),
        s.subrange(i, i + enc_rec_arr(rs).len()) == enc_rec_arr(rs),
    ensures
        p_rec_arr(s, i, n) == Some((rs, i + enc_rec_arr(rs).len())),
{
    let a = seq!['['];
    let b = enc_recs(rs) + seq![']'];
    assert(enc_rec_arr(rs) =~= a + b);
    lemma_subrange_split(s, i, a, b);
    assert(s[i] == s.subrange(i, i + 1)[0]);
    assert(s[i] == '[');
    if rs.len() == 0 {
        assert(enc_recs(rs) =~= Seq::<char>::empty());
        assert(s[i + 1] == s.subrange(i + 1, i + 1 + b.len() as int)[0]);
        assert(s[i + 1] == ']');
        assert(rs =~= Seq::<Seq<Option<i64>>>::empty());
    } else {
        assert(s[i + 1] == s.subrange(i + 1, i + 1 + b.len() as int)[0]);
        assert(enc_recs(rs)[0] == enc_rec(rs[0])[0]) by {
            if rs.len() == 1 {
            } else {
                assert(enc_recs(rs) == enc_rec(rs[0]) + seq![','] + enc_recs(rs.drop_first()));
            }
        }
        assert(enc_rec(rs[0])[0] == '[');
        assert(s[i + 1] == '[');
        lemma_p_recs_tail_complete(s, i + 1, rs, n);
    }
}

proof fn lemma_p_slice_raw_complete(
    s: Seq<char>,
    i: int,
    rs: Seq<Seq<Option<i64>>>,
    lpl: nat,
    lpt: Option<i64>,
    n: nat,
)
    requires
        0 <= i,
        forall|k: int| 0 <= k < rs.len() ==> (#[trigger] rs[k]).len() == n,
        lpl <= usize::MAX,
        lpl <= 0x8000_0000_0000_0000,
        i + enc_slice_raw(rs, lpl, lpt).len() <= s.len(),
        s.subrange(i, i + enc_slice_raw(rs, lpl, lpt).len()) == enc_slice_raw(rs, lpl, lpt),
    ensures
        p_slice_raw(s, i, n) == Some(((rs, lpl as int, lpt), i + enc_slice_raw(rs, lpl, lpt).len())),
{
    let part1 = seq!['['];
    let part2 = enc_rec_arr(rs);
    let part3 = seq![','];
    let part4 = enc_nat(lpl);
    let part5 = seq![','];
    let part6 = enc_opt(lpt);
    let part7 = seq![']'];
    let whole = enc_slice_raw(rs, lpl, lpt);
    assert(whole =~= part1 + (part2 + (part3 + (part4 + (part5 + (part6 + part7))))));
    lemma_subrange_split(s, i, part1, part2 + (part3 + (part4 + (part5 + (part6 + part7)))));
    let i1 = i + 1;
    assert(s[i] == s.subrange(i, i + 1)[0]);
    assert(s[i] == '[');
    lemma_subrange_split(s, i1, part2, part3 + (part4 + (part5 + (part6 + part7))));
    let i2 = i1 + part2.len();
    lemma_p_rec_arr_complete(s, i1, rs, n);
    lemma_subrange_split(s, i2, part3, part4 + (part5 + (part6 + part7)));
    let i3 = i2 + 1;
    assert(s[i2] == s.subrange(i2, i2 + 1)[0]);
    assert(s[i2] == ',');
    lemma_subrange_split(s, i3, part4, part5 + (part6 + part7));
    let i4 = i3 + part4.len();
    assert(s[i4] == s.subrange(i4, i4 + (part5 + (part6 + part7)).len() as int)[0]);
    assert(s[i4] == ',');
    assert(dval(',') < 0);
    lemma_p_nat_complete(s, i3, lpl);
    lemma_subrange_split(s, i4, part5, part6 + part7);
    let i5 = i4 + 1;
    lemma_subrange_split(s, i5, part6, part7);
    let i6 = i5 + part6.len();
    assert(s[i6] == s.subrange(i6, i6 + 1)[0]);
    assert(s[i6] == ']');
    assert(dval(']') < 0);
    lemma_p_opt_complete(s, i5, lpt);
}


proof fn lemma_items_from_inverse<T>(
    items: Seq<T>,
    f: spec_fn(T) -> Seq<Option<i64>>,
    conv: spec_fn(Seq<Option<i64>>) -> Option<T>,
)
    requires
        forall|k: int| 0 <= k < items.len() ==> conv(f(#[trigger] items[k])) == Some(items[k]),
    ensures
        items_from(items.map_values(f), conv) == Some(items),
    decreases items.len(),
{
    let m = items.map_values(f);
    if items.len() == 0 {
        assert(m.len() == 0);
        assert(items =~= Seq::<T>::empty());
    } else {
        assert(m[0] == f(items[0]));
        assert(m.drop_first() =~= items.drop_first().map_values(f));
        assert forall|k: int|
            0 <= k < items.drop_first().len() implies conv(
                f(#[trigger] items.drop_first()[k]),
            ) == Some(items.drop_first()[k]) by {
            assert(items.drop_first()[k] == items[k + 1]);
        }
        lemma_items_from_inverse(items.drop_first(), f, conv);
        assert(seq![items[0]] + items.drop_first() =~= items);
    }
}

proof fn lemma_slice_complete<T>(
    s: Seq<char>,
    i: int,
    m: SliceModel<T>,
    f: spec_fn(T) -> Seq<Option<i64>>,
    conv: spec_fn(Seq<Option<i64>>) -> Option<T>,
    n: nat,
)
    requires
        0 <= i,
        forall|k: int| 0 <= k < m.items.len() ==> conv(f(#[trigger] m.items[k])) == Some(m.items[k]),
        forall|k: int| 0 <= k < m.items.len() ==> f(#[trigger] m.items[k]).len() == n,
        m.stats.last_pull_length <= 0x8000_0000_0000_0000,
        i + enc_slice(m, f).len() <= s.len(),
        s.subrange(i, i + enc_slice(m, f).len()) == enc_slice(m, f),
    ensures
        slice_from(p_slice_raw(s, i, n), conv) == Some(
            ((m.items, m.stats), i + enc_slice(m, f).len()),
        ),
{
    let rs = m.items.map_values(f);
    assert forall|k: int| 0 <= k < rs.len() implies (#[trigger] rs[k]).len() == n by {
        assert(rs[k] == f(m.items[k]));
    }
    lemma_p_slice_raw_complete(
        s,
        i,
        rs,
        m.stats.last_pull_length as nat,
        m.stats.last_pull_time,
        n,
    );
    lemma_items_from_inverse(m.items, f, conv);
}


/// The persistence bounds a statement store must meet for its encoding
/// to decode: quarterly income amounts bounded and provenance horizons
/// in signed range.
pub open spec fn statements_persist_wf(m: StatementsModel) -> bool {
    &&& crate::statements::income_items_wf(m.quarter_income.items)
    &&& m.annual_income.stats.last_pull_length <= 0x8000_0000_0000_0000
    &&& m.quarter_income.stats.last_pull_length <= 0x8000_0000_0000_0000
    &&& m.ttm_income.stats.last_pull_length <= 0x8000_0000_0000_0000
    &&& m.annual_balance.stats.last_pull_length <= 0x8000_0000_0000_0000
    &&& m.quarter_balance.stats.last_pull_length <= 0x8000_0000_0000_0000
    &&& m.annual_cash.stats.last_pull_length <= 0x8000_0000_0000_0000
    &&& m.quarter_cash.stats.last_pull_length <= 0x8000_0000_0000_0000
}

/// Where each piece of an encoded statement store sits in `s` when the
/// whole encoding sits at `i`.
spec fn statements_parts_at(s: Seq<char>, i: int, m: StatementsModel) -> bool {
    let c2 = enc_slice(m.annual_income, |r: IncomeStatement| income_fields(r));
    let c4 = enc_slice(m.quarter_income, |r: IncomeStatement| income_fields(r));
    let c6 = enc_slice(m.ttm_income, |r: IncomeStatement| income_fields(r));
    let c8 = enc_slice(m.annual_balance, |r: BalanceSheetStatement| balance_fields(r));
    let c10 = enc_slice(m.quarter_balance, |r: BalanceSheetStatement| balance_fields(r));
    let c12 = enc_slice(m.annual_cash, |r: CashFlowStatement| cash_fields(r));
    let c14 = enc_slice(m.quarter_cash, |r: CashFlowStatement| cash_fields(r));
    let p2 = i + 1;
    let p3 = p2 + c2.len();
    let p4 = p3 + 1;
    let p5 = p4 + c4.len();
    let p6 = p5 + 1;
    let p7 = p6 + c6.len();
    let p8 = p7 + 1;
    let p9 = p8 + c8.len();
    let p10 = p9 + 1;
    let p11 = p10 + c10.len();
    let p12 = p11 + 1;
    let p13 = p12 + c12.len();
    let p14 = p13 + 1;
    let p15 = p14 + c14.len();
    &&& i + enc_statements(m).len() == p15 + 1
    &&& p15 + 1 <= s.len()
    &&& s[i] == '['
    &&& s.subrange(p2, p3) == c2
    &&& s[p3] == ','
    &&& s.subrange(p4, p5) == c4
    &&& s[p5] == ','
    &&& s.subrange(p6, p7) == c6
    &&& s[p7] == ','
    &&& s.subrange(p8, p9) == c8
    &&& s[p9] == ','
    &&& s.subrange(p10, p11) == c10
    &&& s[p11] == ','
    &&& s.subrange(p12, p13) == c12
    &&& s[p13] == ','
    &&& s.subrange(p14, p15) == c14
    &&& s[p15] == ']'
}

#[verifier::rlimit(100)]
#[verifier::spinoff_prover]
proof fn lemma_statements_peel(s: Seq<char>, i: int, m: StatementsModel)
    requires
        0 <= i,
        i + enc_statements(m).len() <= s.len(),
        s.subrange(i, i + enc_statements(m).len()) == enc_statements(m),
    ensures
        statements_parts_at(s, i, m),
{
    reveal(enc_statements);
    let c1 = seq!['['];
    let c2 = enc_slice(m.annual_income, |r: IncomeStatement| income_fields(r));
    let c3 = seq![','];
    let c4 = enc_slice(m.quarter_income, |r: IncomeStatement| income_fields(r));
    let c5 = seq![','];
    let c6 = enc_slice(m.ttm_income, |r: IncomeStatement| income_fields(r));
    let c7 = seq![','];
    let c8 = enc_slice(m.annual_balance, |r: BalanceSheetStatement| balance_fields(r));
    let c9 = seq![','];
    let c10 = enc_slice(m.quarter_balance, |r: BalanceSheetStatement| balance_fields(r));
    let c11 = seq![','];
    let c12 = enc_slice(m.annual_cash, |r: CashFlowStatement| cash_fields(r));
    let c13 = seq![','];
    let c14 = enc_slice(m.quarter_cash, |r: CashFlowStatement| cash_fields(r));
    let c15 = seq![']'];
    lemma_subrange_split(s, i, c1 + c2 + c3 + c4 + c5 + c6 + c7 + c8 + c9 + c10 + c11 + c12 + c13 + c14, c15);
    lemma_subrange_split(s, i, c1 + c2 + c3 + c4 + c5 + c6 + c7 + c8 + c9 + c10 + c11 + c12 + c13, c14);
    lemma_subrange_split(s, i, c1 + c2 + c3 + c4 + c5 + c6 + c7 + c8 + c9 + c10 + c11 + c12, c13);
    lemma_subrange_split(s, i, c1 + c2 + c3 + c4 + c5 + c6 + c7 + c8 + c9 + c10 + c11, c12);
    lemma_subrange_split(s, i, c1 + c2 + c3 + c4 + c5 + c6 + c7 + c8 + c9 + c10, c11);
    lemma_subrange_split(s, i, c1 + c2 + c3 + c4 + c5 + c6 + c7 + c8 + c9, c10);
    lemma_subrange_split(s, i, c1 + c2 + c3 + c4 + c5 + c6 + c7 + c8, c9);
    lemma_subrange_split(s, i, c1 + c2 + c3 + c4 + c5 + c6 + c7, c8);
    lemma_subrange_split(s, i, c1 + c2 + c3 + c4 + c5 + c6, c7);
    lemma_subrange_split(s, i, c1 + c2 + c3 + c4 + c5, c6);
    lemma_subrange_split(s, i, c1 + c2 + c3 + c4, c5);
    lemma_subrange_split(s, i, c1 + c2 + c3, c4);
    lemma_subrange_split(s, i, c1 + c2, c3);
    lemma_subrange_split(s, i, c1, c2);
    let p2 = i + 1;
    let p3 = p2 + c2.len();
    let p5 = p3 + 1 + c4.len();
    let p7 = p5 + 1 + c6.len();
    let p9 = p7 + 1 + c8.len();
    let p11 = p9 + 1 + c10.len();
    let p13 = p11 + 1 + c12.len();
    let p15 = p13 + 1 + c14.len();
    assert(s[i] == s.subrange(i, i + 1)[0]);
    assert(s[p3] == s.subrange(p3, p3 + 1)[0]);
    assert(s[p5] == s.subrange(p5, p5 + 1)[0]);
    assert(s[p7] == s.subrange(p7, p7 + 1)[0]);
    assert(s[p9] == s.subrange(p9, p9 + 1)[0]);
    assert(s[p11] == s.subrange(p11, p11 + 1)[0]);
    assert(s[p13] == s.subrange(p13, p13 + 1)[0]);
    assert(s[p15] == s.subrange(p15, p15 + 1)[0]);
}

proof fn lemma_income_inverse_raw(items: Seq<IncomeStatement>)
    ensures
        forall|k: int|
            0 <= k < items.len() ==> income_from_fields_raw(
                income_fields(#[trigger] items[k]),
            ) == Some(items[k]),
        forall|k: int| 0 <= k < items.len() ==> income_fields(#[trigger] items[k]).len() == 11,
{
}

proof fn lemma_income_inverse_checked(items: Seq<IncomeStatement>)
    requires
        crate::statements::income_items_wf(items),
    ensures
        forall|k: int|
            0 <= k < items.len() ==> income_from_fields(
                income_fields(#[trigger] items[k]),
            ) == Some(items[k]),
        forall|k: int| 0 <= k < items.len() ==> income_fields(#[trigger] items[k]).len() == 11,
{
    assert forall|k: int|
        0 <= k < items.len() implies income_from_fields(income_fields(#[trigger] items[k]))
        == Some(items[k]) by {
        assert(crate::statements::income_amount_wf(items[k]));
    }
}

proof fn lemma_balance_inverse(items: Seq<BalanceSheetStatement>)
    ensures
        forall|k: int|
            0 <= k < items.len() ==> balance_from_fields(
                balance_fields(#[trigger] items[k]),
            ) == Some(items[k]),
        forall|k: int| 0 <= k < items.len() ==> balance_fields(#[trigger] items[k]).len() == 6,
{
}

proof fn lemma_cash_inverse(items: Seq<CashFlowStatement>)
    ensures
        forall|k: int|
            0 <= k < items.len() ==> cash_from_fields(cash_fields(#[trigger] items[k])) == Some(
                items[k],
            ),
        forall|k: int| 0 <= k < items.len() ==> cash_fields(#[trigger] items[k]).len() == 5,
{
}

#[verifier::rlimit(100)]
#[verifier::spinoff_prover]
proof fn lemma_p_statements_complete(s: Seq<char>, i: int, m: StatementsModel)
    requires
        0 <= i,
        statements_persist_wf(m),
        i + enc_statements(m).len() <= s.len(),
        s.subrange(i, i + enc_statements(m).len()) == enc_statements(m),
    ensures
        p_statements(s, i) == Some((m, i + enc_statements(m).len())),
{
    reveal(enc_statements);
    reveal(p_statements);
    lemma_statements_peel(s, i, m);
    let c2 = enc_slice(m.annual_income, |r: IncomeStatement| income_fields(r));
    let c4 = enc_slice(m.quarter_income, |r: IncomeStatement| income_fields(r));
    let c6 = enc_slice(m.ttm_income, |r: IncomeStatement| income_fields(r));
    let c8 = enc_slice(m.annual_balance, |r: BalanceSheetStatement| balance_fields(r));
    let c10 = enc_slice(m.quarter_balance, |r: BalanceSheetStatement| balance_fields(r));
    let c12 = enc_slice(m.annual_cash, |r: CashFlowStatement| cash_fields(r));
    let c14 = enc_slice(m.quarter_cash, |r: CashFlowStatement| cash_fields(r));
    let p2 = i + 1;
    let p3 = p2 + c2.len();
    let p4 = p3 + 1;
    let p5 = p4 + c4.len();
    let p6 = p5 + 1;
    let p7 = p6 + c6.len();
    let p8 = p7 + 1;
    let p9 = p8 + c8.len();
    let p10 = p9 + 1;
    let p11 = p10 + c10.len();
    let p12 = p11 + 1;
    let p13 = p12 + c12.len();
    let p14 = p13 + 1;
    let p15 = p14 + c14.len();
    lemma_income_inverse_raw(m.annual_income.items);
    lemma_income_inverse_checked(m.quarter_income.items);
    lemma_income_inverse_raw(m.ttm_income.items);
    lemma_balance_inverse(m.annual_balance.items);
    lemma_balance_inverse(m.quarter_balance.items);
    lemma_cash_inverse(m.annual_cash.items);
    lemma_cash_inverse(m.quarter_cash.items);
    lemma_slice_complete(
        s,
        p2,
        m.annual_income,
        |r: IncomeStatement| income_fields(r),
        |fs: Seq<Option<i64>>| income_from_fields_raw(fs),
        11,
    );
    lemma_slice_complete(
        s,
        p4,
        m.quarter_income,
        |r: IncomeStatement| income_fields(r),
        |fs: Seq<Option<i64>>| income_from_fields(fs),
        11,
    );
    lemma_slice_complete(
        s,
        p6,
        m.ttm_income,
        |r: IncomeStatement| income_fields(r),
        |fs: Seq<Option<i64>>| income_from_fields_raw(fs),
        11,
    );
    lemma_slice_complete(
        s,
        p8,
        m.annual_balance,
        |r: BalanceSheetStatement| balance_fields(r),
        |fs: Seq<Option<i64>>| balance_from_fields(fs),
        6,
    );
    lemma_slice_complete(
        s,
        p10,
        m.quarter_balance,
        |r: BalanceSheetStatement| balance_fields(r),
        |fs: Seq<Option<i64>>| balance_from_fields(fs),
        6,
    );
    lemma_slice_complete(
        s,
        p12,
        m.annual_cash,
        |r: CashFlowStatement| cash_fields(r),
        |fs: Seq<Option<i64>>| cash_from_fields(fs),
        5,
    );
    lemma_slice_complete(
        s,
        p14,
        m.quarter_cash,
        |r: CashFlowStatement| cash_fields(r),
        |fs: Seq<Option<i64>>| cash_from_fields(fs),
        5,
    );
    assert(p_char(s, i, '[') == Some(p2));
    assert(p_char(s, p3, ',') == Some(p4));
    assert(p_char(s, p5, ',') == Some(p6));
    assert(p_char(s, p7, ',') == Some(p8));
    assert(p_char(s, p9, ',') == Some(p10));
    assert(p_char(s, p11, ',') == Some(p12));
    assert(p_char(s, p13, ',') == Some(p14));
    assert(p_char(s, p15, ']') == Some(i + enc_statements(m).len()));
    assert(p_statements(s, i) == Some((m, i + enc_statements(m).len())));
}

/// The persistence bounds a metric store must meet: provenance horizons
/// in signed range.
pub open spec fn metrics_persist_wf(m: MetricsModel) -> bool {
    &&& m.annual_ratios.stats.last_pull_length <= 0x8000_0000_0000_0000
    &&& m.quarter_ratios.stats.last_pull_length <= 0x8000_0000_0000_0000
    &&& m.ttm_ratios.stats.last_pull_length <= 0x8000_0000_0000_0000
    &&& m.annual_key_metrics.stats.last_pull_length <= 0x8000_0000_0000_0000
    &&& m.quarter_key_metrics.stats.last_pull_length <= 0x8000_0000_0000_0000
    &&& m.ttm_key_metrics.stats.last_pull_length <= 0x8000_0000_0000_0000
}

/// Where each piece of an encoded metric store sits in `s` when the
/// whole encoding sits at `i`.
spec fn metrics_parts_at(s: Seq<char>, i: int, m: MetricsModel) -> bool {
    let c2 = enc_slice(m.annual_ratios, |r: Ratios| ratios_fields(r));
    let c4 = enc_slice(m.quarter_ratios, |r: Ratios| ratios_fields(r));
    let c6 = enc_slice(m.ttm_ratios, |r: RatiosTTM| ratios_ttm_fields(r));
    let c8 = enc_slice(m.annual_key_metrics, |r: KeyMetrics| key_metrics_fields(r));
    let c10 = enc_slice(m.quarter_key_metrics, |r: KeyMetrics| key_metrics_fields(r));
    let c12 = enc_slice(m.ttm_key_metrics, |r: KeyMetricsTTM| key_metrics_ttm_fields(r));
    let p2 = i + 1;
    let p3 = p2 + c2.len();
    let p4 = p3 + 1;
    let p5 = p4 + c4.len();
    let p6 = p5 + 1;
    let p7 = p6 + c6.len();
    let p8 = p7 + 1;
    let p9 = p8 + c8.len();
    let p10 = p9 + 1;
    let p11 = p10 + c10.len();
    let p12 = p11 + 1;
    let p13 = p12 + c12.len();
    &&& i + enc_metrics(m).len() == p13 + 1
    &&& p13 + 1 <= s.len()
    &&& s[i] == '['
    &&& s.subrange(p2, p3) == c2
    &&& s[p3] == ','
    &&& s.subrange(p4, p5) == c4
    &&& s[p5] == ','
    &&& s.subrange(p6, p7) == c6
    &&& s[p7] == ','
    &&& s.subrange(p8, p9) == c8
    &&& s[p9] == ','
    &&& s.subrange(p10, p11) == c10
    &&& s[p11] == ','
    &&& s.subrange(p12, p13) == c12
    &&& s[p13] == ']'
}

#[verifier::rlimit(100)]
#[verifier::spinoff_prover]
proof fn lemma_metrics_peel(s: Seq<char>, i: int, m: MetricsModel)
    requires
        0 <= i,
        i + enc_metrics(m).len() <= s.len(),
        s.subrange(i, i + enc_metrics(m).len()) == enc_metrics(m),
    ensures
        metrics_parts_at(s, i, m),
{
    reveal(enc_metrics);
    let c1 = seq!['['];
    let c2 = enc_slice(m.annual_ratios, |r: Ratios| ratios_fields(r));
    let c3 = seq![','];
    let c4 = enc_slice(m.quarter_ratios, |r: Ratios| ratios_fields(r));
    let c5 = seq![','];
    let c6 = enc_slice(m.ttm_ratios, |r: RatiosTTM| ratios_ttm_fields(r));
    let c7 = seq![','];
    let c8 = enc_slice(m.annual_key_metrics, |r: KeyMetrics| key_metrics_fields(r));
    let c9 = seq![','];
    let c10 = enc_slice(m.quarter_key_metrics, |r: KeyMetrics| key_metrics_fields(r));
    let c11 = seq![','];
    let c12 = enc_slice(m.ttm_key_metrics, |r: KeyMetricsTTM| key_metrics_ttm_fields(r));
    let c13 = seq![']'];
    lemma_subrange_split(s, i, c1 + c2 + c3 + c4 + c5 + c6 + c7 + c8 + c9 + c10 + c11 + c12, c13);
    lemma_subrange_split(s, i, c1 + c2 + c3 + c4 + c5 + c6 + c7 + c8 + c9 + c10 + c11, c12);
    lemma_subrange_split(s, i, c1 + c2 + c3 + c4 + c5 + c6 + c7 + c8 + c9 + c10, c11);
    lemma_subrange_split(s, i, c1 + c2 + c3 + c4 + c5 + c6 + c7 + c8 + c9, c10);
    lemma_subrange_split(s, i, c1 + c2 + c3 + c4 + c5 + c6 + c7 + c8, c9);
    lemma_subrange_split(s, i, c1 + c2 + c3 + c4 + c5 + c6 + c7, c8);
    lemma_subrange_split(s, i, c1 + c2 + c3 + c4 + c5 + c6, c7);
    lemma_subrange_split(s, i, c1 + c2 + c3 + c4 + c5, c6);
    lemma_subrange_split(s, i, c1 + c2 + c3 + c4, c5);
    lemma_subrange_split(s, i, c1 + c2 + c3, c4);
    lemma_subrange_split(s, i, c1 + c2, c3);
    lemma_subrange_split(s, i, c1, c2);
    let p2 = i + 1;
    let p3 = p2 + c2.len();
    let p5 = p3 + 1 + c4.len();
    let p7 = p5 + 1 + c6.len();
    let p9 = p7 + 1 + c8.len();
    let p11 = p9 + 1 + c10.len();
    let p13 = p11 + 1 + c12.len();
    assert(s[i] == s.subrange(i, i + 1)[0]);
    assert(s[p3] == s.subrange(p3, p3 + 1)[0]);
    assert(s[p5] == s.subrange(p5, p5 + 1)[0]);
    assert(s[p7] == s.subrange(p7, p7 + 1)[0]);
    assert(s[p9] == s.subrange(p9, p9 + 1)[0]);
    assert(s[p11] == s.subrange(p11, p11 + 1)[0]);
    assert(s[p13] == s.subrange(p13, p13 + 1)[0]);
}

proof fn lemma_ratios_inverse(items: Seq<Ratios>)
    ensures
        forall|k: int|
            0 <= k < items.len() ==> ratios_from_fields(
                ratios_fields(#[trigger] items[k]),
            ) == Some(items[k]),
        forall|k: int| 0 <= k < items.len() ==> ratios_fields(#[trigger] items[k]).len() == 5,
{
}

proof fn lemma_ratios_ttm_inverse(items: Seq<RatiosTTM>)
    ensures
        forall|k: int|
            0 <= k < items.len() ==> ratios_ttm_from_fields(
                ratios_ttm_fields(#[trigger] items[k]),
            ) == Some(items[k]),
        forall|k: int| 0 <= k < items.len() ==> ratios_ttm_fields(#[trigger] items[k]).len() == 3,
{
}

proof fn lemma_key_metrics_inverse(items: Seq<KeyMetrics>)
    ensures
        forall|k: int|
            0 <= k < items.len() ==> key_metrics_from_fields(
                key_metrics_fields(#[trigger] items[k]),
            ) == Some(items[k]),
        forall|k: int| 0 <= k < items.len() ==> key_metrics_fields(#[trigger] items[k]).len() == 6,
{
}

proof fn lemma_key_metrics_ttm_inverse(items: Seq<KeyMetricsTTM>)
    ensures
        forall|k: int|
            0 <= k < items.len() ==> key_metrics_ttm_from_fields(
                key_metrics_ttm_fields(#[trigger] items[k]),
            ) == Some(items[k]),
        forall|k: int|
            0 <= k < items.len() ==> key_metrics_ttm_fields(#[trigger] items[k]).len() == 4,
{
}

#[verifier::rlimit(100)]
#[verifier::spinoff_prover]
proof fn lemma_p_metrics_complete(s: Seq<char>, i: int, m: MetricsModel)
    requires
        0 <= i,
        metrics_persist_wf(m),
        i + enc_metrics(m).len() <= s.len(),
        s.subrange(i, i + enc_metrics(m).len()) == enc_metrics(m),
    ensures
        p_metrics(s, i) == Some((m, i + enc_metrics(m).len())),
{
    reveal(p_metrics);
    lemma_metrics_peel(s, i, m);
    let c2 = enc_slice(m.annual_ratios, |r: Ratios| ratios_fields(r));
    let c4 = enc_slice(m.quarter_ratios, |r: Ratios| ratios_fields(r));
    let c6 = enc_slice(m.ttm_ratios, |r: RatiosTTM| ratios_ttm_fields(r));
    let c8 = enc_slice(m.annual_key_metrics, |r: KeyMetrics| key_metrics_fields(r));
    let c10 = enc_slice(m.quarter_key_metrics, |r: KeyMetrics| key_metrics_fields(r));
    let c12 = enc_slice(m.ttm_key_metrics, |r: KeyMetricsTTM| key_metrics_ttm_fields(r));
    let p2 = i + 1;
    let p3 = p2 + c2.len();
    let p4 = p3 + 1;
    let p5 = p4 + c4.len();
    let p6 = p5 + 1;
    let p7 = p6 + c6.len();
    let p8 = p7 + 1;
    let p9 = p8 + c8.len();
    let p10 = p9 + 1;
    let p11 = p10 + c10.len();
    let p12 = p11 + 1;
    let p13 = p12 + c12.len();
    lemma_ratios_inverse(m.annual_ratios.items);
    lemma_ratios_inverse(m.quarter_ratios.items);
    lemma_ratios_ttm_inverse(m.ttm_ratios.items);
    lemma_key_metrics_inverse(m.annual_key_metrics.items);
    lemma_key_metrics_inverse(m.quarter_key_metrics.items);
    lemma_key_metrics_ttm_inverse(m.ttm_key_metrics.items);
    lemma_slice_complete(
        s,
        p2,
        m.annual_ratios,
        |r: Ratios| ratios_fields(r),
        |fs: Seq<Option<i64>>| ratios_from_fields(fs),
        5,
    );
    lemma_slice_complete(
        s,
        p4,
        m.quarter_ratios,
        |r: Ratios| ratios_fields(r),
        |fs: Seq<Option<i64>>| ratios_from_fields(fs),
        5,
    );
    lemma_slice_complete(
        s,
        p6,
        m.ttm_ratios,
        |r: RatiosTTM| ratios_ttm_fields(r),
        |fs: Seq<Option<i64>>| ratios_ttm_from_fields(fs),
        3,
    );
    lemma_slice_complete(
        s,
        p8,
        m.annual_key_metrics,
        |r: KeyMetrics| key_metrics_fields(r),
        |fs: Seq<Option<i64>>| key_metrics_from_fields(fs),
        6,
    );
    lemma_slice_complete(
        s,
        p10,
        m.quarter_key_metrics,
        |r: KeyMetrics| key_metrics_fields(r),
        |fs: Seq<Option<i64>>| key_metrics_from_fields(fs),
        6,
    );
    lemma_slice_complete(
        s,
        p12,
        m.ttm_key_metrics,
        |r: KeyMetricsTTM| key_metrics_ttm_fields(r),
        |fs: Seq<Option<i64>>| key_metrics_ttm_from_fields(fs),
        4,
    );
    assert(p_char(s, i, '[') == Some(p2));
    assert(p_char(s, p3, ',') == Some(p4));
    assert(p_char(s, p5, ',') == Some(p6));
    assert(p_char(s, p7, ',') == Some(p8));
    assert(p_char(s, p9, ',') == Some(p10));
    assert(p_char(s, p11, ',') == Some(p12));
    assert(p_char(s, p13, ']') == Some(i + enc_metrics(m).len()));
    assert(p_metrics(s, i) == Some((m, i + enc_metrics(m).len())));
}

/// The persistence bounds a profile store must meet: provenance horizons
/// in signed range.
pub open spec fn other_persist_wf(m: OtherModel) -> bool {
    &&& m.profile.stats.last_pull_length <= 0x8000_0000_0000_0000
    &&& m.dcf.stats.last_pull_length <= 0x8000_0000_0000_0000
}

proof fn lemma_p_other_complete(s: Seq<char>, i: int, m: OtherModel)
    requires
        0 <= i,
        other_persist_wf(m),
        i + enc_other(m).len() <= s.len(),
        s.subrange(i, i + enc_other(m).len()) == enc_other(m),
    ensures
        p_other(s, i) == Some((m, i + enc_other(m).len())),
{
    reveal(enc_other);
    reveal(p_other);
    let c1 = seq!['['];
    let c2 = enc_slice(m.profile, |r: Profile| profile_fields(r));
    let c3 = seq![','];
    let c4 = enc_slice(m.dcf, |r: AdvancedLeveredDiscountedCashFlow| dcf_fields(r));
    let c5 = seq![']'];
    lemma_subrange_split(s, i, c1 + c2 + c3 + c4, c5);
    lemma_subrange_split(s, i, c1 + c2 + c3, c4);
    lemma_subrange_split(s, i, c1 + c2, c3);
    lemma_subrange_split(s, i, c1, c2);
    let p1 = i;
    let p2 = p1 + c1.len();
    let p3 = p2 + c2.len();
    let p4 = p3 + c3.len();
    let p5 = p4 + c4.len();
    assert(s[p1] == s.subrange(p1, p1 + 1)[0]);
    assert(s[p3] == s.subrange(p3, p3 + 1)[0]);
    assert(s[p5] == s.subrange(p5, p5 + 1)[0]);
    assert forall|k: int|
        0 <= k < m.profile.items.len() implies profile_from_fields(
        profile_fields(#[trigger] m.profile.items[k]),
    ) == Some(m.profile.items[k]) by {}
    assert forall|k: int|
        0 <= k < m.dcf.items.len() implies dcf_from_fields(
        dcf_fields(#[trigger] m.dcf.items[k]),
    ) == Some(m.dcf.items[k]) by {}
    lemma_slice_complete(
        s,
        p2,
        m.profile,
        |r: Profile| profile_fields(r),
        |fs: Seq<Option<i64>>| profile_from_fields(fs),
        8,
    );
    lemma_slice_complete(
        s,
        p4,
        m.dcf,
        |r: AdvancedLeveredDiscountedCashFlow| dcf_fields(r),
        |fs: Seq<Option<i64>>| dcf_from_fields(fs),
        2,
    );
    assert(p_other(s, i) matches Some((mm, ee)) && mm == m && ee == i + enc_other(m).len());
}


/// The persistence bounds one cache record must meet for its encoding to
/// decode: store bounds, and a cache position in signed range.
pub open spec fn stock_persist_wf(m: StockModel) -> bool {
    &&& statements_persist_wf(m.statements)
    &&& metrics_persist_wf(m.metrics)
    &&& other_persist_wf(m.other)
    &&& (m.cache_index matches Some(u) ==> u <= 0x8000_0000_0000_0000)
}

/// Every record of the cache meets the persistence bounds.  A cache the
/// store functions built always does: horizons come from `u8` requests
/// and positions from vector lengths, and quarterly income is only
/// installed bounded.
pub open spec fn cache_persist_wf(ms: Seq<StockModel>) -> bool {
    forall|i: int| 0 <= i < ms.len() ==> stock_persist_wf(#[trigger] ms[i])
}

#[verifier::rlimit(100)]
#[verifier::spinoff_prover]
proof fn lemma_p_stock_complete(s: Seq<char>, i: int, m: StockModel)
    requires
        0 <= i,
        stock_persist_wf(m),
        i + enc_stock(m).len() <= s.len(),
        s.subrange(i, i + enc_stock(m).len()) == enc_stock(m),
    ensures
        p_stock(s, i) == Some((m, i + enc_stock(m).len())),
        enc_stock(m).len() >= 2,
{
    reveal(enc_stock);
    reveal(p_stock);
    let c1 = seq!['['];
    let c2 = enc_ci(m.cache_index);
    let c3 = seq![','];
    let c4 = enc_str(m.ticker);
    let c5 = seq![','];
    let c6 = enc_statements(m.statements);
    let c7 = seq![','];
    let c8 = enc_metrics(m.metrics);
    let c9 = seq![','];
    let c10 = enc_other(m.other);
    let c11 = seq![']'];
    lemma_subrange_split(s, i, c1 + c2 + c3 + c4 + c5 + c6 + c7 + c8 + c9 + c10, c11);
    lemma_subrange_split(s, i, c1 + c2 + c3 + c4 + c5 + c6 + c7 + c8 + c9, c10);
    lemma_subrange_split(s, i, c1 + c2 + c3 + c4 + c5 + c6 + c7 + c8, c9);
    lemma_subrange_split(s, i, c1 + c2 + c3 + c4 + c5 + c6 + c7, c8);
    lemma_subrange_split(s, i, c1 + c2 + c3 + c4 + c5 + c6, c7);
    lemma_subrange_split(s, i, c1 + c2 + c3 + c4 + c5, c6);
    lemma_subrange_split(s, i, c1 + c2 + c3 + c4, c5);
    lemma_subrange_split(s, i, c1 + c2 + c3, c4);
    lemma_subrange_split(s, i, c1 + c2, c3);
    lemma_subrange_split(s, i, c1, c2);
    let p2 = i + 1;
    let p3 = p2 + c2.len();
    let p4 = p3 + 1;
    let p5 = p4 + c4.len();
    let p6 = p5 + 1;
    let p7 = p6 + c6.len();
    let p8 = p7 + 1;
    let p9 = p8 + c8.len();
    let p10 = p9 + 1;
    let p11 = p10 + c10.len();
    assert(s[i] == s.subrange(i, i + 1)[0]);
    assert(s[p3] == s.subrange(p3, p3 + 1)[0]);
    assert(s[p5] == s.subrange(p5, p5 + 1)[0]);
    assert(s[p7] == s.subrange(p7, p7 + 1)[0]);
    assert(s[p9] == s.subrange(p9, p9 + 1)[0]);
    assert(s[p11] == s.subrange(p11, p11 + 1)[0]);
    assert(dval(',') < 0);
    lemma_p_ci_complete(s, p2, m.cache_index);
    lemma_p_str_complete(s, p4, m.ticker);
    lemma_p_statements_complete(s, p6, m.statements);
    lemma_p_metrics_complete(s, p8, m.metrics);
    lemma_p_other_complete(s, p10, m.other);
    assert(p_char(s, i, '[') == Some(p2));
    assert(p_char(s, p3, ',') == Some(p4));
    assert(p_char(s, p5, ',') == Some(p6));
    assert(p_char(s, p7, ',') == Some(p8));
    assert(p_char(s, p9, ',') == Some(p10));
    assert(p_char(s, p11, ']') == Some(i + enc_stock(m).len()));
    assert(p_stock(s, i) == Some((m, i + enc_stock(m).len())));
}

#[verifier::rlimit(100)]
#[verifier::spinoff_prover]
proof fn lemma_p_stocks_tail_complete(s: Seq<char>, i: int, ms: Seq<StockModel>)
    requires
        0 <= i,
        ms.len() >= 1,
        cache_persist_wf(ms),
        i + enc_stocks(ms).len() + 1 <= s.len(),
        s.subrange(i, i + enc_stocks(ms).len() + 1) == enc_stocks(ms) + seq![']'],
    ensures
        p_stocks_tail(s, i) == Some((ms, i + enc_stocks(ms).len() + 1)),
    decreases ms.len(),
{
    if ms.len() == 1 {
        assert(enc_stocks(ms) == enc_stock(ms[0]));
        let a = enc_stock(ms[0]);
        let b = seq![']'];
        assert(enc_stocks(ms) + seq![']'] =~= a + b);
        lemma_subrange_split(s, i, a, b);
        assert(stock_persist_wf(ms[0]));
        lemma_p_stock_complete(s, i, ms[0]);
        let e = i + a.len();
        assert(s[e] == s.subrange(e, e + 1)[0]);
        assert(s[e] == ']');
        assert(seq![ms[0]] =~= ms);
    } else {
        let rest = ms.drop_first();
        assert(enc_stocks(ms) == enc_stock(ms[0]) + seq![','] + enc_stocks(rest));
        let a = enc_stock(ms[0]);
        let b = seq![','] + enc_stocks(rest) + seq![']'];
        assert(enc_stocks(ms) + seq![']'] =~= a + b);
        lemma_subrange_split(s, i, a, b);
        assert(stock_persist_wf(ms[0]));
        lemma_p_stock_complete(s, i, ms[0]);
        let e = i + a.len();
        assert(s[e] == s.subrange(e, e + b.len() as int)[0]);
        assert(s[e] == ',');
        let a2 = seq![','];
        let b2 = enc_stocks(rest) + seq![']'];
        assert(s.subrange(e, e + b.len() as int) == a2 + b2) by {
            assert(b =~= a2 + b2);
        }
        lemma_subrange_split(s, e, a2, b2);
        assert forall|k: int|
            0 <= k < rest.len() implies stock_persist_wf(#[trigger] rest[k]) by {
            assert(rest[k] == ms[k + 1]);
        }
        lemma_p_stocks_tail_complete(s, e + 1, rest);
        assert(seq![ms[0]] + rest =~= ms);
    }
}

/// Persistence round trip: decoding an encoded cache yields that cache
/// exactly, provenance included, for every cache within the persistence
/// bounds.  Saving and loading through [`encode_cache`] and
/// [`decode_cache`] therefore reproduces the cache's whole state.
#[verifier::rlimit(100)]
#[verifier::spinoff_prover]
pub proof fn lemma_cache_round_trip(ms: Seq<StockModel>)
    requires
        cache_persist_wf(ms),
    ensures
        spec_decode(enc_cache(ms)) == Some(ms),
{
    let s = enc_cache(ms);
    let a = seq!['['];
    let b = enc_stocks(ms);
    let c = seq![']'];
    assert(s.subrange(0, s.len() as int) =~= s);
    lemma_subrange_split(s, 0, a + b, c);
    lemma_subrange_split(s, 0, a, b);
    assert(s[0] == s.subrange(0, 1)[0]);
    assert(s[0] == '[');
    if ms.len() == 0 {
        assert(b =~= Seq::<char>::empty());
        assert(s[1] == s.subrange((a + b).len() as int, s.len() as int)[0]);
        assert(s[1] == ']');
        assert(s.len() == 2);
        assert(ms =~= Seq::<StockModel>::empty());
    } else {
        assert(s.subrange(1, s.len() as int) =~= enc_stocks(ms) + seq![']']) by {
            assert forall|j: int|
                0 <= j < s.len() - 1 implies s.subrange(1, s.len() as int)[j] == (enc_stocks(ms)
                + seq![']'])[j] by {
                if j < b.len() {
                    assert(s.subrange(1, 1 + b.len() as int)[j] == b[j]);
                } else {
                    assert(s[s.len() - 1] == ']');
                }
            }
        }
        lemma_p_stocks_tail_complete(s, 1, ms);
        assert(enc_stock(ms[0]).len() >= 1 && enc_stock(ms[0])[0] == '[') by {
            reveal(enc_stock);
        }
        assert(enc_stocks(ms)[0] == enc_stock(ms[0])[0]) by {
            reveal(enc_stock);
            if ms.len() > 1 {
                assert(enc_stocks(ms) == enc_stock(ms[0]) + seq![','] + enc_stocks(
                    ms.drop_first(),
                ));
            } else {
                assert(enc_stocks(ms) == enc_stock(ms[0]));
            }
        }
        assert(s[1] == s.subrange(1, 1 + b.len() as int)[0]);
        assert(s[1] == '[');
        assert(s[1] != ']');
    }
}

} // verus!

