use agents::borrow_ledger::BorrowLedger;
use agents::market::{
    AgentId, Cash, Order, OrderId, OrderSide, OrderStatus, OrderType, Price, Quantity, RiskViolation,
    ShortSellingConfig, SymbolConfig,
};
use agents::position_limits::PositionValidator;

fn make_buy_order(agent_id: u64, dollars: i64, quantity: u64) -> Order {
    Order::limit(AgentId(agent_id), "SIM", OrderSide::Buy, Price::from_dollars(dollars), Quantity(quantity))
}

fn make_sell_order(agent_id: u64, dollars: i64, quantity: u64) -> Order {
    Order::limit(AgentId(agent_id), "SIM", OrderSide::Sell, Price::from_dollars(dollars), Quantity(quantity))
}

fn make_market_sell_order(agent_id: u64, quantity: u64) -> Order {
    Order {
        id: OrderId(0),
        agent_id: AgentId(agent_id),
        symbol: "SIM".to_string(),
        side: OrderSide::Sell,
        order_type: OrderType::Market,
        quantity: Quantity(quantity),
        remaining_quantity: Quantity(quantity),
        timestamp: 0,
        latency_ticks: 0,
        status: OrderStatus::Pending,
    }
}

#[test]
fn test_buy_order_sufficient_cash() {
    let validator = PositionValidator::with_defaults();
    let ledger = BorrowLedger::new();

    let order = make_buy_order(1, 100, 10);
    let result = validator.validate_order(&order, 0, Cash::from_dollars(10_000), &ledger, Quantity(0), false);

    assert!(result.is_ok());
}

#[test]
fn test_buy_order_insufficient_cash() {
    let validator = PositionValidator::with_defaults();
    let ledger = BorrowLedger::new();

    let order = make_buy_order(1, 100, 1000);
    let result = validator.validate_order(&order, 0, Cash::from_dollars(10_000), &ledger, Quantity(0), false);

    assert_eq!(result, Err(RiskViolation::InsufficientCash));
}

#[test]
fn test_buy_order_exceeds_shares_outstanding() {
    let symbol_config = SymbolConfig::new("SIM", Quantity(1_000), Price::from_dollars(100));
    let validator = PositionValidator::new(symbol_config, ShortSellingConfig::disabled());
    let ledger = BorrowLedger::new();

    let order = make_buy_order(1, 100, 600);
    let result = validator.validate_order(&order, 0, Cash::from_dollars(100_000), &ledger, Quantity(500), false);

    assert_eq!(result, Err(RiskViolation::InsufficientShares));
}

#[test]
fn test_sell_order_long_position() {
    let validator = PositionValidator::with_defaults();
    let ledger = BorrowLedger::new();

    let order = make_sell_order(1, 100, 50);
    let result = validator.validate_order(&order, 100, Cash::from_dollars(10_000), &ledger, Quantity(100), false);

    assert!(result.is_ok());
}

#[test]
fn test_sell_order_short_disabled() {
    let validator = PositionValidator::with_defaults();
    let ledger = BorrowLedger::new();

    let order = make_sell_order(1, 100, 150);
    let result = validator.validate_order(&order, 100, Cash::from_dollars(10_000), &ledger, Quantity(100), false);

    assert_eq!(result, Err(RiskViolation::ShortSellingDisabled));
}

#[test]
fn test_sell_order_short_enabled_no_borrow() {
    let short_config = ShortSellingConfig::enabled_default();
    let validator = PositionValidator::new(SymbolConfig::default(), short_config);
    let ledger = BorrowLedger::new();

    let order = make_sell_order(1, 100, 100);
    let result = validator.validate_order(&order, 0, Cash::from_dollars(10_000), &ledger, Quantity(0), false);

    assert_eq!(result, Err(RiskViolation::NoBorrowAvailable));
}

#[test]
fn test_sell_order_short_with_borrow() {
    let short_config = ShortSellingConfig::enabled_default();
    let validator = PositionValidator::new(SymbolConfig::default(), short_config);
    let mut ledger = BorrowLedger::new();
    ledger.init_symbol("SIM", Quantity(100_000));

    let order = make_sell_order(1, 100, 100);
    let result = validator.validate_order(&order, 0, Cash::from_dollars(10_000), &ledger, Quantity(0), false);

    assert!(result.is_ok());
}

#[test]
fn test_sell_order_exceeds_short_limit() {
    let short_config = ShortSellingConfig::enabled_default().with_max_short(Quantity(50));
    let validator = PositionValidator::new(SymbolConfig::default(), short_config);
    let mut ledger = BorrowLedger::new();
    ledger.init_symbol("SIM", Quantity(100_000));

    let order = make_sell_order(1, 100, 100);
    let result = validator.validate_order(&order, 0, Cash::from_dollars(10_000), &ledger, Quantity(0), false);

    assert_eq!(result, Err(RiskViolation::ShortLimitExceeded));
}

#[test]
fn test_sell_order_no_locate_required() {
    let short_config = ShortSellingConfig::enabled_default().with_locate_required(false);
    let validator = PositionValidator::new(SymbolConfig::default(), short_config);
    let ledger = BorrowLedger::new();

    let order = make_sell_order(1, 100, 100);
    let result = validator.validate_order(&order, 0, Cash::from_dollars(10_000), &ledger, Quantity(0), false);

    assert!(result.is_ok());
}

#[test]
fn test_max_buyable() {
    let symbol_config = SymbolConfig::new("SIM", Quantity(10_000), Price::from_dollars(100));
    let validator = PositionValidator::new(symbol_config, ShortSellingConfig::disabled());

    let max = validator.max_buyable(Price::from_dollars(100), Cash::from_dollars(10_000), Quantity(5_000));
    assert_eq!(max, Quantity(100));

    let max = validator.max_buyable(Price::from_dollars(100), Cash::from_dollars(1_000_000), Quantity(5_000));
    assert_eq!(max, Quantity(5_000));
}

#[test]
fn test_market_sell_order() {
    let validator = PositionValidator::with_defaults();
    let ledger = BorrowLedger::new();

    let order = make_market_sell_order(1, 150);
    let result = validator.validate_order(&order, 100, Cash::from_dollars(10_000), &ledger, Quantity(100), false);

    assert_eq!(result, Err(RiskViolation::ShortSellingDisabled));
}

// A market maker is exempt from the per-agent short cap but still needs a borrow.
#[test]
fn exempt_agent_skips_short_cap() {
    let short_config = ShortSellingConfig::enabled_default().with_max_short(Quantity(50));
    let validator = PositionValidator::new(SymbolConfig::default(), short_config);
    let mut ledger = BorrowLedger::new();
    ledger.init_symbol("SIM", Quantity(100_000));

    let order = make_sell_order(1, 100, 100);
    let result = validator.validate_order(&order, 0, Cash::from_dollars(10_000), &ledger, Quantity(0), true);
    assert!(result.is_ok());
}

// A market buy is not checked against cash (it has no price), only against shares outstanding.
#[test]
fn market_buy_skips_cash_check() {
    let validator = PositionValidator::with_defaults();
    let ledger = BorrowLedger::new();
    let order = Order::market(AgentId(1), "SIM", OrderSide::Buy, Quantity(500));
    let result = validator.validate_order(&order, 0, Cash::zero(), &ledger, Quantity(0), false);
    assert!(result.is_ok());
}

// A zero price buys nothing.
#[test]
fn max_buyable_zero_price() {
    let validator = PositionValidator::with_defaults();
    assert_eq!(validator.max_buyable(Price(0), Cash::from_dollars(10_000), Quantity(0)), Quantity(0));
}

// With short selling disabled nothing is shortable; enabled, the cap and the pool bound it.
#[test]
fn max_shortable_bounds() {
    let disabled = PositionValidator::with_defaults();
    let mut ledger = BorrowLedger::new();
    ledger.init_symbol("SIM", Quantity(30));
    assert_eq!(disabled.max_shortable(0, &ledger, "SIM"), Quantity(0));

    let enabled = PositionValidator::new(SymbolConfig::default(), ShortSellingConfig::enabled_default());
    assert_eq!(enabled.max_shortable(0, &ledger, "SIM"), Quantity(30));
    assert_eq!(enabled.max_shortable(-9_990, &ledger, "SIM"), Quantity(10));
}

// The default validator trades symbol "SIM" with one million shares at $100.
#[test]
fn default_validator_symbol() {
    let validator = PositionValidator::with_defaults();
    assert_eq!(validator.symbol_config().symbol, "SIM");
    assert_eq!(validator.symbol_config().shares_outstanding, Quantity(1_000_000));
    assert_eq!(validator.symbol_config().initial_price, Price::from_dollars(100));
    assert!(!validator.short_config().enabled);
}

// The maximum buyable quantity is accepted from a flat position; one more share is not.
#[test]
fn max_buyable_is_largest_accepted_buy() {
    let validator = PositionValidator::with_defaults();
    let ledger = BorrowLedger::new();
    let cash = Cash::from_dollars(10_050);
    let q = validator.max_buyable(Price::from_dollars(100), cash, Quantity(0));
    assert_eq!(q, Quantity(100));
    assert!(validator.validate_order(&make_buy_order(1, 100, q.0), 0, cash, &ledger, Quantity(0), false).is_ok());
    assert_eq!(
        validator.validate_order(&make_buy_order(1, 100, q.0 + 1), 0, cash, &ledger, Quantity(0), false),
        Err(RiskViolation::InsufficientCash)
    );
    let q = validator.max_buyable(Price::from_dollars(100), cash, Quantity(999_950));
    assert_eq!(q, Quantity(50));
    assert_eq!(
        validator.validate_order(&make_buy_order(1, 100, 51), 0, cash, &ledger, Quantity(999_950), false),
        Err(RiskViolation::InsufficientShares)
    );
}
