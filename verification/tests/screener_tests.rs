//! The screening rule: short-circuit cost, the end-to-end pass and
//! reject paths, and each predicate's threshold.

use stock_screener::cache::SymbolCache;
use stock_screener::helper_structs::{
    AvailableTraded, BalanceSheetStatement, IncomeStatement, KeyMetrics, KeyMetricsTTM, Ratios,
    TimePeriod,
};
use stock_screener::screener::{
    buffetology_requirement, check_step, first_failing_step, is_buffetology_stock, ScreenRequest,
    Screener,
};
use stock_screener::stock::Stock;

const TODAY: i64 = 10_000;

fn income(date: i64, eps: i64, net_income: i64) -> IncomeStatement {
    IncomeStatement {
        date: Some(date),
        revenue: None,
        cost_of_revenue: None,
        gross_profit: None,
        gross_profit_ratio: None,
        operating_income: None,
        income_before_tax: None,
        income_tax_expense: None,
        net_income: Some(net_income),
        net_income_ratio: None,
        eps: Some(eps),
    }
}

fn key_metrics(date: i64, roic: i64) -> KeyMetrics {
    KeyMetrics {
        date: Some(date),
        market_cap: None,
        pe_ratio: None,
        earnings_yield: None,
        roic: Some(roic),
        roe: None,
    }
}

fn ratios(date: i64, roe: i64) -> Ratios {
    Ratios {
        date: Some(date),
        current_ratio: None,
        return_on_assets: None,
        return_on_equity: Some(roe),
        debt_equity_ratio: None,
    }
}

fn km_ttm(earnings_yield: i64) -> KeyMetricsTTM {
    KeyMetricsTTM {
        market_cap_ttm: None,
        pe_ratio_ttm: None,
        earnings_yield_ttm: Some(earnings_yield),
        roic_ttm: None,
    }
}

fn balance(date: i64, long_term_debt: i64) -> BalanceSheetStatement {
    BalanceSheetStatement {
        date: Some(date),
        total_assets: None,
        total_liabilities: None,
        total_stockholders_equity: None,
        long_term_debt: Some(long_term_debt),
        total_debt: None,
    }
}

/// Ten annual income periods whose earnings per share do not decrease
/// toward the present: most recent first, the checkpoint years hold
/// 3, then 2, then 1.
fn passing_income() -> Vec<IncomeStatement> {
    let eps = [3, 2, 2, 2, 2, 1, 1, 1, 1, 1];
    (0..10).map(|i| income(TODAY - 30 - 365 * i as i64, eps[i], 10_000)).collect()
}

/// A fully ensured record that passes every step: mean return on
/// invested capital 0.15, mean return on equity 0.18, trailing earnings
/// yield 0.05, and long-term debt at twice net income.
fn passing_stock() -> Stock {
    let mut stock = Stock::new(String::from("PASS"));
    stock.statements.install_income(&TimePeriod::Annual(10), TODAY, passing_income());
    stock.metrics.install_key_metrics(
        &TimePeriod::Annual(10),
        TODAY,
        (0..10).map(|i| key_metrics(TODAY - 30 - 365 * i as i64, 1_500)).collect(),
    );
    stock.metrics.install_ratios(
        &TimePeriod::Annual(10),
        TODAY,
        (0..10).map(|i| ratios(TODAY - 30 - 365 * i as i64, 1_800)).collect(),
    );
    stock.metrics.install_key_metrics_ttm(TODAY, vec![km_ttm(500)]);
    stock.statements.install_balance(&TimePeriod::Quarter(1), TODAY, vec![balance(
        TODAY - 30,
        20_000,
    )]);
    stock
}

/// Plays the ensure-then-check loop the way a caller would, with a
/// synthetic provider, counting the fetches that were actually needed.
/// Returns the rejecting step, if any, and the fetch count.
fn run_screen(stock: &mut Stock, annual_income: Vec<IncomeStatement>) -> (Option<usize>, usize) {
    let mut fetches = 0;
    for step in 1..=7 {
        match buffetology_requirement(step) {
            Some(ScreenRequest::AnnualIncome(h)) => {
                if stock.statements.needs_income_fetch(&TimePeriod::Annual(h), TODAY) {
                    fetches += 1;
                    stock.statements.install_income(
                        &TimePeriod::Annual(h),
                        TODAY,
                        annual_income.clone(),
                    );
                }
            }
            Some(ScreenRequest::AnnualKeyMetrics(h)) => {
                if stock.metrics.needs_key_metrics_fetch(&TimePeriod::Annual(h), TODAY) {
                    fetches += 1;
                    stock.metrics.install_key_metrics(&TimePeriod::Annual(h), TODAY, vec![]);
                }
            }
            Some(ScreenRequest::AnnualRatios(h)) => {
                if stock.metrics.needs_ratios_fetch(&TimePeriod::Annual(h), TODAY) {
                    fetches += 1;
                    stock.metrics.install_ratios(&TimePeriod::Annual(h), TODAY, vec![]);
                }
            }
            Some(ScreenRequest::TtmKeyMetrics()) => {
                if stock.metrics.needs_key_metrics_ttm_fetch(TODAY) {
                    fetches += 1;
                    stock.metrics.install_key_metrics_ttm(TODAY, vec![]);
                }
            }
            Some(ScreenRequest::QuarterBalance(h)) => {
                if stock.statements.needs_balance_fetch(&TimePeriod::Quarter(h), TODAY) {
                    fetches += 1;
                    stock.statements.install_balance(&TimePeriod::Quarter(h), TODAY, vec![]);
                }
            }
            None => {}
        }
        if !check_step(stock, step) {
            return (Some(step), fetches);
        }
    }
    (None, fetches)
}

#[test]
fn eight_periods_reject_at_the_first_step_with_one_fetch() {
    let mut stock = Stock::new(String::from("SHORT"));
    let eight: Vec<IncomeStatement> =
        (0..8).map(|i| income(TODAY - 30 - 365 * i as i64, 1, 1)).collect();
    let (rejected, fetches) = run_screen(&mut stock, eight);
    assert_eq!(rejected, Some(1));
    // Only the income fetch happened: no key-metric or ratio fetch was
    // ever planned.
    assert_eq!(fetches, 1);
    assert_eq!(stock.metrics.annual_key_metrics.stats.last_pull_time, None);
    assert_eq!(stock.metrics.annual_ratios.stats.last_pull_time, None);
}

#[test]
fn fully_ensured_passing_stock_passes() {
    let stock = passing_stock();
    assert!(is_buffetology_stock(&stock));
    assert_eq!(first_failing_step(&stock), None);
}

#[test]
fn one_negative_eps_rejects_at_step_three() {
    let mut stock = passing_stock();
    let mut items = passing_income();
    items[7].eps = Some(-1);
    stock.statements.install_income(&TimePeriod::Annual(10), TODAY, items);
    assert!(!is_buffetology_stock(&stock));
    assert_eq!(first_failing_step(&stock), Some(3));
}

#[test]
fn decreasing_eps_rejects_at_step_two() {
    let mut stock = passing_stock();
    let mut items = passing_income();
    items[0].eps = Some(0);
    stock.statements.install_income(&TimePeriod::Annual(10), TODAY, items);
    assert_eq!(first_failing_step(&stock), Some(2));
}

#[test]
fn missing_eps_sorts_below_zero_and_rejects() {
    let mut stock = passing_stock();
    let mut items = passing_income();
    items[6].eps = None;
    stock.statements.install_income(&TimePeriod::Annual(10), TODAY, items);
    assert_eq!(first_failing_step(&stock), Some(3));
}

#[test]
fn roic_mean_threshold_is_exact() {
    let mut stock = passing_stock();
    // Sum 11,999 of the scaled values: mean just below 0.12 rejects.
    let mut kms: Vec<KeyMetrics> = (0..10).map(|i| key_metrics(TODAY - 30 - 365 * i as i64, 1_200)).collect();
    kms[0].roic = Some(1_199);
    stock.metrics.install_key_metrics(&TimePeriod::Annual(10), TODAY, kms.clone());
    assert_eq!(first_failing_step(&stock), Some(4));
    // Sum exactly 12,000: mean 0.12 passes.
    kms[0].roic = Some(1_200);
    stock.metrics.install_key_metrics(&TimePeriod::Annual(10), TODAY, kms);
    assert_eq!(first_failing_step(&stock), None);
}

#[test]
fn roe_mean_threshold_is_exact() {
    let mut stock = passing_stock();
    let mut rs: Vec<Ratios> = (0..10).map(|i| ratios(TODAY - 30 - 365 * i as i64, 1_500)).collect();
    rs[3].return_on_equity = Some(1_499);
    stock.metrics.install_ratios(&TimePeriod::Annual(10), TODAY, rs.clone());
    assert_eq!(first_failing_step(&stock), Some(5));
    rs[3].return_on_equity = Some(1_501);
    stock.metrics.install_ratios(&TimePeriod::Annual(10), TODAY, rs);
    assert_eq!(first_failing_step(&stock), None);
}

#[test]
fn earnings_yield_below_threshold_rejects() {
    let mut stock = passing_stock();
    stock.metrics.install_key_metrics_ttm(TODAY, vec![km_ttm(299)]);
    assert_eq!(first_failing_step(&stock), Some(6));
    stock.metrics.install_key_metrics_ttm(TODAY, vec![km_ttm(300)]);
    assert_eq!(first_failing_step(&stock), None);
    stock.metrics.install_key_metrics_ttm(TODAY, vec![]);
    assert_eq!(first_failing_step(&stock), Some(6));
}

#[test]
fn debt_limit_is_five_times_net_income() {
    let mut stock = passing_stock();
    // Net income is 10,000, so the limit is 50,000.
    stock.statements.install_balance(&TimePeriod::Quarter(1), TODAY, vec![balance(
        TODAY - 30,
        50_000,
    )]);
    assert_eq!(first_failing_step(&stock), None);
    stock.statements.install_balance(&TimePeriod::Quarter(1), TODAY, vec![balance(
        TODAY - 30,
        50_001,
    )]);
    assert_eq!(first_failing_step(&stock), Some(7));
    // A missing balance sheet or missing long-term debt also rejects.
    stock.statements.install_balance(&TimePeriod::Quarter(1), TODAY, vec![]);
    assert_eq!(first_failing_step(&stock), Some(7));
}

fn listed(symbol: &str, exchange: &str, kind: &str) -> AvailableTraded {
    AvailableTraded {
        symbol: String::from(symbol),
        exchange_short_name: String::from(exchange),
        type_: String::from(kind),
    }
}

#[test]
fn candidate_list_keeps_major_exchange_stock_only() {
    let mut cache = SymbolCache::new();
    let symbols = vec![
        listed("AAPL", "NASDAQ", "stock"),
        listed("SPY", "NYSE", "etf"),
        listed("XOM", "NYSE", "stock"),
        listed("VOD", "LSE", "stock"),
        listed("AAPL", "NASDAQ", "stock"),
    ];
    let mut screener = Screener::new();
    screener.init_screen(&mut cache, &symbols);
    // The exchange-traded fund, the foreign listing, and the duplicate
    // create no extra records.
    assert_eq!(cache.stocks.len(), 2);
    assert_eq!(screener.stocks_to_screen, vec![0, 1, 0]);
    assert_eq!(cache.stocks[0].ticker, "AAPL");
    assert_eq!(cache.stocks[1].ticker, "XOM");
}

#[test]
fn screener_collects_passing_candidates_in_order() {
    let mut cache = SymbolCache::new();
    let a = cache.get_or_add_stock(String::from("PASS"));
    let b = cache.get_or_add_stock(String::from("FAIL"));
    let mut good = passing_stock();
    good.cache_index = Some(a);
    good.ticker = String::from("PASS");
    cache.stocks[a] = good;
    let screener = Screener { stocks_to_screen: vec![a, b, a] };
    let passed = screener.buffetology_screener(&cache);
    assert_eq!(passed, vec![a, a]);
}
