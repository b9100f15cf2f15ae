use agents::market::{AgentId, OrderSide, OrderType, Price, Quantity};
use agents::pairs::{can_enter, can_exit, closing_order, enter_spread, exit_spread, spread_after, spread_decision, SpreadAction, SpreadPosition};

// From flat a low z-score enters long, a high one short; inside a spread, reverting exits.
#[test]
fn spread_state_machine() {
    assert_eq!(spread_decision(SpreadPosition::Flat, true, false, false), SpreadAction::EnterLong);
    assert_eq!(spread_decision(SpreadPosition::Flat, false, true, false), SpreadAction::EnterShort);
    assert_eq!(spread_decision(SpreadPosition::Flat, false, false, true), SpreadAction::Hold);
    assert_eq!(spread_decision(SpreadPosition::LongSpread, true, false, false), SpreadAction::Hold);
    assert_eq!(spread_decision(SpreadPosition::ShortSpread, false, false, true), SpreadAction::Exit);

    assert_eq!(spread_after(SpreadPosition::Flat, SpreadAction::EnterLong, true), SpreadPosition::LongSpread);
    assert_eq!(spread_after(SpreadPosition::Flat, SpreadAction::EnterShort, false), SpreadPosition::Flat);
    assert_eq!(spread_after(SpreadPosition::LongSpread, SpreadAction::Exit, true), SpreadPosition::Flat);
    assert!(can_enter(SpreadPosition::Flat));
    assert!(!can_exit(SpreadPosition::Flat));
    assert!(can_exit(SpreadPosition::ShortSpread));
}

// Closing a leg sells a long, buys back a short, and does nothing when flat.
#[test]
fn closing_orders() {
    assert_eq!(closing_order(0), None);
    assert_eq!(closing_order(25), Some((OrderSide::Sell, Quantity(25))));
    assert_eq!(closing_order(-40), Some((OrderSide::Buy, Quantity(40))));
    assert_eq!(closing_order(i64::MIN), Some((OrderSide::Buy, Quantity(1u64 << 63))));
}

// Exiting sells the long leg and buys back the short one, skipping a leg
// without a price or without a position.
#[test]
fn exit_spread_closes_both_legs() {
    let orders = exit_spread(AgentId(7), "AAA", 100, Some(Price(500_000)), "BBB", -80, Some(Price(300_000)));
    assert_eq!(orders.len(), 2);
    assert_eq!(orders[0].symbol, "AAA");
    assert_eq!(orders[0].side, OrderSide::Sell);
    assert_eq!(orders[0].quantity, Quantity(100));
    assert_eq!(orders[0].order_type, OrderType::Limit { price: Price(500_000) });
    assert_eq!(orders[1].symbol, "BBB");
    assert_eq!(orders[1].side, OrderSide::Buy);
    assert_eq!(orders[1].quantity, Quantity(80));
    assert_eq!(orders[1].agent_id, AgentId(7));

    let orders = exit_spread(AgentId(7), "AAA", 100, None, "BBB", 0, Some(Price(300_000)));
    assert!(orders.is_empty());
}

// A long spread buys the first leg and sells the second; a short one the
// reverse; a leg without a mid price blocks the entry.
#[test]
fn enter_spread_legs() {
    let orders = enter_spread(AgentId(7), true, "AAA", Some(Price(500_000)), Quantity(100), "BBB", Some(Price(300_000)), Quantity(150));
    assert_eq!(orders.len(), 2);
    assert_eq!((orders[0].symbol.as_str(), orders[0].side, orders[0].quantity), ("AAA", OrderSide::Buy, Quantity(100)));
    assert_eq!((orders[1].symbol.as_str(), orders[1].side, orders[1].quantity), ("BBB", OrderSide::Sell, Quantity(150)));

    let orders = enter_spread(AgentId(7), false, "AAA", Some(Price(500_000)), Quantity(100), "BBB", Some(Price(300_000)), Quantity(150));
    assert_eq!(orders[0].side, OrderSide::Sell);
    assert_eq!(orders[1].side, OrderSide::Buy);

    assert!(enter_spread(AgentId(7), true, "AAA", Some(Price(500_000)), Quantity(100), "BBB", None, Quantity(150)).is_empty());
}
