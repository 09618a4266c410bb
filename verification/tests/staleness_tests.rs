//! The staleness policy on concrete calendars.

use stock_screener::helper_structs::{FetchStats, IncomeStatement, TimePeriod};
use stock_screener::statements::Statements;
use stock_screener::utils::{needs_update_based_on_time, update_pull_stats, FetchThrottle};

fn income_with_date(date: i64) -> IncomeStatement {
    IncomeStatement {
        date: Some(date),
        revenue: None,
        cost_of_revenue: None,
        gross_profit: None,
        gross_profit_ratio: None,
        operating_income: None,
        income_before_tax: None,
        income_tax_expense: None,
        net_income: None,
        net_income_ratio: None,
        eps: None,
    }
}

#[test]
fn annual_slice_aged_past_window_is_stale() {
    let today = 10_000i64;
    let yesterday = today - 1;
    let mut s = Statements::new();
    // Most recent annual period ended 360 days ago; last pulled yesterday.
    s.install_income(
        &TimePeriod::Annual(10),
        yesterday,
        vec![income_with_date(today - 360)],
    );
    assert!(needs_update_based_on_time(&s, &TimePeriod::Annual(10), today));
}

#[test]
fn annual_slice_inside_window_is_fresh() {
    let today = 10_000i64;
    let yesterday = today - 1;
    let mut s = Statements::new();
    // Most recent annual period ended 300 days ago: within the 355-day window.
    s.install_income(
        &TimePeriod::Annual(10),
        yesterday,
        vec![income_with_date(today - 300)],
    );
    assert!(!needs_update_based_on_time(&s, &TimePeriod::Annual(10), today));
}

#[test]
fn same_day_pull_is_never_stale() {
    let today = 10_000i64;
    let mut s = Statements::new();
    s.install_income(&TimePeriod::Annual(10), today, vec![income_with_date(today - 360)]);
    // Aged data, but already pulled today: wait until tomorrow.
    assert!(!needs_update_based_on_time(&s, &TimePeriod::Annual(10), today));
}

#[test]
fn empty_slice_is_never_calendar_stale() {
    let s = Statements::new();
    assert!(!needs_update_based_on_time(&s, &TimePeriod::Annual(10), 10_000));
    assert!(!needs_update_based_on_time(&s, &TimePeriod::Quarter(8), 10_000));
}

#[test]
fn quarterly_window_is_eighty_days() {
    let today = 10_000i64;
    let yesterday = today - 1;
    let mut s = Statements::new();
    s.install_income(
        &TimePeriod::Quarter(8),
        yesterday,
        vec![income_with_date(today - 81)],
    );
    assert!(needs_update_based_on_time(&s, &TimePeriod::Quarter(8), today));
    let mut f = Statements::new();
    f.install_income(
        &TimePeriod::Quarter(8),
        yesterday,
        vec![income_with_date(today - 80)],
    );
    assert!(!needs_update_based_on_time(&f, &TimePeriod::Quarter(8), today));
}

#[test]
fn pull_stats_record_requested_horizon_and_day() {
    let s = update_pull_stats(&TimePeriod::Annual(10), 42);
    assert_eq!(s, FetchStats { last_pull_length: 10, last_pull_time: Some(42) });
    let q = update_pull_stats(&TimePeriod::Quarter(8), 42);
    assert_eq!(q.last_pull_length, 8);
    let t = update_pull_stats(&TimePeriod::TTM(), 42);
    assert_eq!(t, FetchStats { last_pull_length: 1, last_pull_time: Some(42) });
    let n = update_pull_stats(&TimePeriod::NA(), 42);
    assert_eq!(n.last_pull_length, 1);
}

#[test]
fn throttle_counts_attempts_and_errors() {
    let mut t = FetchThrottle::new();
    t.record_attempt();
    t.record_attempt();
    t.record_error();
    assert_eq!(t.attempts, 2);
    assert_eq!(t.errors, 1);
}
