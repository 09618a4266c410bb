//! The symbol cache: get-or-create and the persistence round trip.

use stock_screener::cache::{state_from_json, SymbolCache};
use stock_screener::helper_structs::{BalanceSheetStatement, IncomeStatement, Profile, TimePeriod};
use stock_screener::statements::Statements;
use stock_screener::stock::Stock;

fn income(date: i64, revenue: i64) -> IncomeStatement {
    IncomeStatement {
        date: Some(date),
        revenue: Some(revenue),
        cost_of_revenue: Some(3),
        gross_profit: None,
        gross_profit_ratio: Some(4_321),
        operating_income: None,
        income_before_tax: None,
        income_tax_expense: Some(-7),
        net_income: Some(revenue / 3),
        net_income_ratio: None,
        eps: Some(2),
    }
}

#[test]
fn get_or_create_is_idempotent() {
    let mut cache = SymbolCache::new();
    let first = cache.get_or_add_stock(String::from("AAPL"));
    let again = cache.get_or_add_stock(String::from("AAPL"));
    assert_eq!(first, again);
    assert_eq!(cache.stocks.len(), 1);
    assert_eq!(cache.stocks[first].cache_index, Some(first));
    assert_eq!(cache.stocks[first].ticker, "AAPL");
}

#[test]
fn each_new_ticker_gets_the_next_slot() {
    let mut cache = SymbolCache::new();
    let a = cache.get_or_add_stock(String::from("AAPL"));
    let b = cache.get_or_add_stock(String::from("MSFT"));
    let c = cache.get_or_add_stock(String::from("AAPL"));
    assert_eq!(a, 0);
    assert_eq!(b, 1);
    assert_eq!(c, 0);
    assert_eq!(cache.stocks[1].cache_index, Some(1));
    assert_eq!(cache.stock_index_in_cache(&String::from("MSFT")), Some(1));
    assert_eq!(cache.stock_index_in_cache(&String::from("GOOG")), None);
}

fn populated_cache() -> SymbolCache {
    let today = 10_000i64;
    let mut cache = SymbolCache::new();
    let a = cache.get_or_add_stock(String::from("AAPL"));
    let b = cache.get_or_add_stock(String::from("MSFT"));
    {
        let s: &mut Stock = &mut cache.stocks[a];
        s.statements.install_income(
            &TimePeriod::Annual(10),
            today - 3,
            vec![income(today - 40, 1_000), income(today - 400, 900)],
        );
        s.statements.install_income(
            &TimePeriod::Quarter(8),
            today - 2,
            vec![income(today - 40, 260), income(today - 130, 250)],
        );
        s.statements.synthesize_ttm_income(today - 2);
        s.statements.install_balance(
            &TimePeriod::Quarter(1),
            today - 1,
            vec![BalanceSheetStatement {
                date: Some(today - 40),
                total_assets: Some(i64::MAX),
                total_liabilities: Some(i64::MIN),
                total_stockholders_equity: None,
                long_term_debt: Some(0),
                total_debt: None,
            }],
        );
        s.other.install_profile(
            today,
            vec![Profile {
                price: Some(17_325),
                beta: Some(-120),
                vol_avg: None,
                mkt_cap: Some(2_000_000),
                last_div: None,
                changes: Some(-5),
                dcf_diff: None,
                dcf: Some(16_000),
            }],
        );
    }
    {
        let s: &mut Stock = &mut cache.stocks[b];
        s.metrics.install_ratios(&TimePeriod::Annual(10), today, vec![]);
    }
    cache
}

#[test]
fn persistence_round_trip_reproduces_the_cache() {
    let cache = populated_cache();
    let text = cache.to_json();
    let loaded = state_from_json(&text);
    // Structural equality, provenance fields included.
    assert_eq!(loaded.stocks, cache.stocks);
}

#[test]
fn ticker_needing_escapes_round_trips() {
    let mut cache = SymbolCache::new();
    cache.get_or_add_stock(String::from("A\"B\\C"));
    let loaded = state_from_json(&cache.to_json());
    assert_eq!(loaded.stocks, cache.stocks);
    assert_eq!(loaded.stocks[0].ticker, "A\"B\\C");
}

#[test]
fn empty_cache_round_trips_as_the_empty_array() {
    let cache = SymbolCache::new();
    let text = cache.to_json();
    let as_string: String = text.iter().collect();
    assert_eq!(as_string, "[]");
    let loaded = state_from_json(&text);
    assert_eq!(loaded.stocks.len(), 0);
}

#[test]
fn corrupt_text_loads_as_the_empty_cache() {
    let garbage: Vec<char> = "not json at all".chars().collect();
    assert_eq!(state_from_json(&garbage).stocks.len(), 0);
    let empty: Vec<char> = Vec::new();
    assert_eq!(state_from_json(&empty).stocks.len(), 0);
    // A decodable text with trailing junk is rejected whole.
    let mut text = SymbolCache::new().to_json();
    text.push(' ');
    assert_eq!(state_from_json(&text).stocks.len(), 0);
}

#[test]
fn records_with_wrong_positions_load_as_the_empty_cache() {
    // A hand-built record that was never stamped with its slot.
    let cache = SymbolCache {
        stocks: vec![Stock {
            cache_index: None,
            ticker: String::from("AAPL"),
            statements: Statements::new(),
            metrics: stock_screener::metrics::Metrics::new(),
            other: stock_screener::other::Other::new(),
        }],
    };
    let loaded = state_from_json(&cache.to_json());
    assert_eq!(loaded.stocks.len(), 0);
}

#[test]
fn duplicate_tickers_load_as_the_empty_cache() {
    let mut one = Stock::new(String::from("AAPL"));
    one.cache_index = Some(0);
    let mut two = Stock::new(String::from("AAPL"));
    two.cache_index = Some(1);
    let cache = SymbolCache { stocks: vec![one, two] };
    let loaded = state_from_json(&cache.to_json());
    assert_eq!(loaded.stocks.len(), 0);
}

#[test]
fn persisted_text_is_valid_json() {
    let cache = populated_cache();
    let text: String = cache.to_json().into_iter().collect();
    // An independent JSON parser accepts the persisted form.
    let value: serde_json::Value = serde_json::from_str(&text).expect("valid JSON");
    let records = value.as_array().expect("top-level array");
    assert_eq!(records.len(), 2);
    // A record is [position, ticker, statements, metrics, profile data].
    assert_eq!(records[0][0], serde_json::Value::from(0));
    assert_eq!(records[0][1], serde_json::Value::from("AAPL"));
    assert_eq!(records[1][1], serde_json::Value::from("MSFT"));
}
