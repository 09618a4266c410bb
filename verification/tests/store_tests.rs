//! The statement store: the no-retry-storm rule and the
//! trailing-twelve-month synthesis.

use stock_screener::helper_structs::{IncomeStatement, TimePeriod, MAX_AMOUNT};
use stock_screener::statements::Statements;

fn income(date: i64, revenue: i64) -> IncomeStatement {
    IncomeStatement {
        date: Some(date),
        revenue: Some(revenue),
        cost_of_revenue: None,
        gross_profit: None,
        gross_profit_ratio: Some(5_000),
        operating_income: None,
        income_before_tax: None,
        income_tax_expense: None,
        net_income: Some(revenue / 2),
        net_income_ratio: Some(5_000),
        eps: Some(1),
    }
}

#[test]
fn short_answer_is_not_retried() {
    let today = 10_000i64;
    let mut s = Statements::new();
    // Ask for ten years; the provider only has three.
    assert!(s.needs_income_fetch(&TimePeriod::Annual(10), today));
    s.install_income(
        &TimePeriod::Annual(10),
        today,
        vec![income(today - 10, 1), income(today - 375, 2), income(today - 740, 3)],
    );
    // Asking for three is satisfied by the cache.
    assert!(!s.needs_income_fetch(&TimePeriod::Annual(3), today));
    // Asking for ten again the same day does not refetch either: that
    // horizon was already attempted.
    assert!(!s.needs_income_fetch(&TimePeriod::Annual(10), today));
}

#[test]
fn larger_horizon_does_refetch() {
    let today = 10_000i64;
    let mut s = Statements::new();
    s.install_income(&TimePeriod::Annual(3), today, vec![income(today - 10, 1)]);
    assert!(s.needs_income_fetch(&TimePeriod::Annual(10), today));
}

#[test]
fn ttm_synthesis_sums_four_quarters() {
    let today = 10_000i64;
    let mut s = Statements::new();
    let plan = s.ttm_income_plan(today);
    assert!(plan.recompute);
    assert!(plan.fetch_quarters);
    s.install_income(
        &TimePeriod::Quarter(8),
        today,
        vec![
            income(today - 10, 10),
            income(today - 100, 20),
            income(today - 190, 30),
            income(today - 280, 40),
            income(today - 370, 99),
        ],
    );
    s.synthesize_ttm_income(today);
    assert_eq!(s.ttm_income.items.len(), 1);
    let ttm = &s.ttm_income.items[0];
    // The four most recent quarters are summed; the fifth is not.
    assert_eq!(ttm.revenue, Some(100));
    // Ratio fields are not additive and stay unset.
    assert_eq!(ttm.gross_profit_ratio, None);
    assert_eq!(ttm.net_income_ratio, None);
    // The synthesized record carries no period date.
    assert_eq!(ttm.date, None);
    assert_eq!(ttm.eps, Some(4));
    assert_eq!(s.ttm_income.stats.last_pull_length, 1);
    assert_eq!(s.ttm_income.stats.last_pull_time, Some(today));
}

#[test]
fn ttm_with_fewer_quarters_sums_what_there_is() {
    let today = 10_000i64;
    let mut s = Statements::new();
    s.install_income(
        &TimePeriod::Quarter(8),
        today,
        vec![income(today - 10, 7), income(today - 100, 5)],
    );
    s.synthesize_ttm_income(today);
    assert_eq!(s.ttm_income.items[0].revenue, Some(12));
}

#[test]
fn ttm_with_no_quarters_stays_unset() {
    let today = 10_000i64;
    let mut s = Statements::new();
    s.synthesize_ttm_income(today);
    assert_eq!(s.ttm_income.items.len(), 1);
    assert_eq!(s.ttm_income.items[0].revenue, None);
}

#[test]
fn ttm_is_not_recomputed_once_built() {
    let today = 10_000i64;
    let mut s = Statements::new();
    s.install_income(&TimePeriod::Quarter(8), today, vec![income(today - 10, 10)]);
    s.synthesize_ttm_income(today);
    let plan = s.ttm_income_plan(today);
    assert!(!plan.recompute);
    assert!(!plan.fetch_quarters);
}

#[test]
fn ttm_sum_handles_the_largest_amounts() {
    let today = 10_000i64;
    let mut s = Statements::new();
    let mut big = income(today - 10, 0);
    big.revenue = Some(MAX_AMOUNT);
    let quarters = vec![big, big, big, big];
    s.install_income(&TimePeriod::Quarter(8), today, quarters);
    s.synthesize_ttm_income(today);
    assert_eq!(s.ttm_income.items[0].revenue, Some(4 * MAX_AMOUNT));
}
