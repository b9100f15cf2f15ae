use agents::accounting::BackgroundPoolAccounting;
use agents::market::{Cash, Price, Quantity};

#[test]
fn test_accounting_basic() {
    let mut acc = BackgroundPoolAccounting::new();
    acc.record_trade_as_buyer(&"TEST".to_string(), Price::from_dollars(10), Quantity(100));
    acc.record_trade_as_seller(&"TEST".to_string(), Price::from_dollars(11), Quantity(100));
    let pnl = acc.realized_pnl();
    assert!(pnl.0 > 0, "Should have profit: {:?}", pnl);
}

#[test]
fn test_multi_symbol() {
    let mut acc = BackgroundPoolAccounting::new();

    acc.record_trade_as_buyer(&"AAPL".to_string(), Price::from_dollars(150), Quantity(100));
    acc.record_trade_as_seller(&"AAPL".to_string(), Price::from_dollars(155), Quantity(100));

    acc.record_trade_as_buyer(&"GOOG".to_string(), Price::from_dollars(100), Quantity(50));
    acc.record_trade_as_seller(&"GOOG".to_string(), Price::from_dollars(98), Quantity(50));

    let pnl = acc.realized_pnl();
    assert!(pnl.0 > 0, "Net should be profitable");

    let aapl_stats = acc.symbol_stats(&"AAPL".to_string()).unwrap();
    assert_eq!(aapl_stats.buy_volume.raw(), 100);
    assert_eq!(aapl_stats.sell_volume.raw(), 100);
}

#[test]
fn test_orders_generated_tracking() {
    let mut acc = BackgroundPoolAccounting::new();
    assert_eq!(acc.total_orders_generated(), 0);

    acc.record_orders_generated(100);
    acc.record_orders_generated(50);

    assert_eq!(acc.total_orders_generated(), 150);
}

// The realized P&L is what was sold minus what was bought, in raw units.
#[test]
fn realized_pnl_exact() {
    let mut acc = BackgroundPoolAccounting::new();
    acc.record_trade_as_buyer(&"AAPL".to_string(), Price::from_dollars(150), Quantity(100));
    acc.record_trade_as_seller(&"AAPL".to_string(), Price::from_dollars(155), Quantity(100));
    acc.record_trade_as_buyer(&"GOOG".to_string(), Price::from_dollars(100), Quantity(50));
    acc.record_trade_as_seller(&"GOOG".to_string(), Price::from_dollars(98), Quantity(50));
    assert_eq!(acc.realized_pnl(), Cash::from_dollars(500 - 100));
    assert_eq!(acc.total_buy_volume(), 150);
    assert_eq!(acc.total_sell_volume(), 150);
    assert_eq!(acc.total_notional(), (150 * 100 + 155 * 100 + 100 * 50 + 98 * 50) * 10_000);
}

// A loss beyond the threshold fails the check; within it, it passes.
#[test]
fn sanity_check_against_threshold() {
    let mut acc = BackgroundPoolAccounting::new();
    acc.record_trade_as_buyer(&"TEST".to_string(), Price::from_dollars(110), Quantity(1000));
    acc.record_trade_as_seller(&"TEST".to_string(), Price::from_dollars(90), Quantity(1000));
    let tight = acc.sanity_check_against(Cash::from_dollars(10_000));
    assert!(!tight.passed);
    assert_eq!(tight.pnl, Cash::from_dollars(-20_000));
    let loose = acc.sanity_check_against(Cash::from_dollars(20_000));
    assert!(loose.passed);
}

// Stats of an unknown symbol are absent; symbols are listed once each.
#[test]
fn symbol_stats_and_listing() {
    let mut acc = BackgroundPoolAccounting::default();
    assert!(acc.symbol_stats(&"NONE".to_string()).is_none());
    acc.record_trade_as_buyer(&"A".to_string(), Price::from_dollars(1), Quantity(1));
    acc.record_trade_as_seller(&"A".to_string(), Price::from_dollars(1), Quantity(1));
    acc.record_trade_as_buyer(&"B".to_string(), Price::from_dollars(1), Quantity(1));
    assert_eq!(acc.symbols(), vec!["A".to_string(), "B".to_string()]);
}

#[test]
fn test_sanity_check_pass() {
    let mut acc = BackgroundPoolAccounting::new();
    acc.record_trade_as_buyer(&"TEST".to_string(), Price::from_dollars(100), Quantity(1000));
    acc.record_trade_as_seller(&"TEST".to_string(), Price::from_dollars(101), Quantity(1000));
    let threshold = Cash((acc.total_notional() as f64 * 0.05) as i64);
    let result = acc.sanity_check_against(threshold);
    assert!(result.passed, "Profitable trading should pass");
}

#[test]
fn test_sanity_check_fail() {
    let mut acc = BackgroundPoolAccounting::new();
    acc.record_trade_as_buyer(&"TEST".to_string(), Price::from_dollars(110), Quantity(1000));
    acc.record_trade_as_seller(&"TEST".to_string(), Price::from_dollars(90), Quantity(1000));
    let threshold = Cash((acc.total_notional() as f64 * 0.05) as i64);
    let result = acc.sanity_check_against(threshold);
    assert!(!result.passed, "Large loss should fail sanity check");
    assert_eq!(result.buy_volume, 1000);
    assert_eq!(result.sell_volume, 1000);
}
