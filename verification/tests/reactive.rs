use agents::market::{AgentId, Cash, Order, OrderSide, OrderType, Price, Quantity, TradeId, Trade, OrderId};
use agents::reactive::{
    validate_strategies, AgentAction, LightweightContext, NewsSignal, PriceSnapshot, ReactiveAgent, ReactivePortfolio,
    StrategyKind, StrategyNumbers, StrategyValidation,
};
use agents::tiers::{CrossDirection, PriceReference, WakeCondition};

fn numbers(n: usize) -> Vec<StrategyNumbers> {
    (0..n).map(|_| StrategyNumbers { exit_threshold: Price(0), fraction_size: 0, news: vec![] }).collect()
}

fn test_agent() -> ReactiveAgent {
    ReactiveAgent::new(
        AgentId(1),
        ReactivePortfolio::single("ACME"),
        vec![StrategyKind::ThresholdBuyer { buy_price: Price(950000) }, StrategyKind::StopLoss],
        Quantity(100),
        Cash::from_dollars(100_000),
    )
}

#[test]
fn test_single_symbol() {
    let portfolio = ReactivePortfolio::SingleSymbol("ACME".to_string());

    assert_eq!(portfolio.primary_symbol(), "ACME");
    assert!(portfolio.contains(&"ACME".to_string()));
    assert!(!portfolio.contains(&"OTHER".to_string()));
    assert_eq!(portfolio.symbols().len(), 1);
}

#[test]
fn test_from_conversions() {
    let p1: ReactivePortfolio = ReactivePortfolio::single("ACME");
    let p2: ReactivePortfolio = "ACME".to_string().into();

    assert_eq!(p1, p2);
    assert_eq!(p1.primary_symbol(), "ACME");
}

#[test]
fn test_strategy_classification() {
    let buyer = StrategyKind::ThresholdBuyer { buy_price: Price(950000) };
    assert!(buyer.is_entry());
    assert!(!buyer.is_exit());

    let stop = StrategyKind::StopLoss;
    assert!(!stop.is_entry());
    assert!(stop.is_exit());

    let seller = StrategyKind::ThresholdSeller { sell_price: Price(1100000) };
    assert!(!seller.is_entry());
    assert!(seller.is_exit());

    let news = StrategyKind::NewsReactor;
    assert!(news.is_entry());
    assert!(news.is_exit());
}

#[test]
fn test_validate_strategies() {
    let valid = vec![StrategyKind::ThresholdBuyer { buy_price: Price(950000) }, StrategyKind::StopLoss];
    assert_eq!(validate_strategies(&valid), StrategyValidation::Valid);

    let no_entry = vec![StrategyKind::StopLoss];
    assert_eq!(validate_strategies(&no_entry), StrategyValidation::MissingEntry);

    let no_exit = vec![StrategyKind::ThresholdBuyer { buy_price: Price(950000) }];
    assert_eq!(validate_strategies(&no_exit), StrategyValidation::MissingExit);

    let news_only = vec![StrategyKind::NewsReactor];
    assert_eq!(validate_strategies(&news_only), StrategyValidation::Valid);
}

#[test]
fn test_context_price_lookup() {
    let prices = vec![
        ("ACME".to_string(), PriceSnapshot::default()),
        ("BETA".to_string(), PriceSnapshot { last: Price(5000), ..Default::default() }),
    ];
    let fundamentals = vec![("ACME".to_string(), Price(10000))];
    let wake_reasons = vec![];

    let ctx = LightweightContext { tick: 100, wake_reasons: &wake_reasons, prices: &prices, fundamentals: &fundamentals };

    assert_eq!(ctx.price(&"ACME".to_string()), Some(Price(0)));
    assert_eq!(ctx.price(&"BETA".to_string()), Some(Price(5000)));
    assert_eq!(ctx.price(&"UNKNOWN".to_string()), None);
    assert_eq!(ctx.fundamental(&"ACME".to_string()), Some(Price(10000)));
}

#[test]
fn test_agent_creation() {
    let agent = test_agent();
    assert_eq!(agent.agent_id(), AgentId(1));
    assert!(agent.is_flat());
    assert_eq!(agent.remaining_capacity(), Quantity(100));
    assert_eq!(agent.agent_state().cash(), Cash::from_dollars(100_000));
}

#[test]
fn test_position_tracking() {
    let mut agent = test_agent();

    agent.process_fill(OrderSide::Buy, Quantity(50), Price(10000), 0, &vec![]);
    assert!(agent.is_long());
    assert_eq!(agent.current_position(), 50);
    assert_eq!(agent.cost_basis(), Price(10000));
    assert_eq!(agent.remaining_capacity(), Quantity(50));

    agent.process_fill(OrderSide::Sell, Quantity(50), Price(10500), 10, &vec![]);
    assert!(agent.is_flat());
    assert_eq!(agent.current_position(), 0);
}

#[test]
fn test_builder() {
    let agent = ReactiveAgent::builder(AgentId(2), ReactivePortfolio::single("BETA"))
        .strategy(StrategyKind::ThresholdBuyer { buy_price: Price(950000) })
        .strategy(StrategyKind::TakeProfit)
        .max_position(Quantity(200))
        .initial_cash(Cash::from_dollars(50_000))
        .build();

    assert_eq!(agent.agent_id(), AgentId(2));
    assert_eq!(agent.max_position(), Quantity(200));
    assert_eq!(agent.agent_state().cash(), Cash::from_dollars(50_000));
}

#[test]
fn test_agent_action_none() {
    let action = AgentAction::none();
    assert!(action.orders.is_empty());
}

#[test]
fn test_agent_action_single() {
    let order = Order::market(AgentId(1), "AAPL", OrderSide::Buy, Quantity(100));
    let action = AgentAction::single(order.clone());
    assert_eq!(action.orders.len(), 1);
    assert_eq!(action.orders[0].agent_id, AgentId(1));
}

// Mid, spread and range of a snapshot.
#[test]
fn price_snapshot_arithmetic() {
    let snap = PriceSnapshot::new(Price(10050), Price(10000), Price(10100), Price(10000), Price(10200), Price(9800));
    assert_eq!(snap.mid(), Price(10050));
    assert_eq!(snap.spread(), Price(100));
    assert_eq!(snap.range(), Price(400));
    let odd = PriceSnapshot::new(Price(0), Price(-3), Price(0), Price(0), Price(0), Price(0));
    assert_eq!(odd.mid(), Price(-1));
}

// Buying into a long position averages the cost basis, truncating.
#[test]
fn cost_basis_weighted_average() {
    let mut agent = test_agent();
    agent.process_fill(OrderSide::Buy, Quantity(30), Price(10000), 1, &vec![]);
    agent.process_fill(OrderSide::Buy, Quantity(20), Price(10001), 2, &vec![]);
    // (10000 * 30 + 10001 * 20) / 50 = 10000.4 -> 10000
    assert_eq!(agent.cost_basis(), Price(10000));
    assert_eq!(agent.current_position(), 50);
    assert_eq!(agent.resolve_reference(&PriceReference::CostBasis), Some(Price(10000)));
    assert_eq!(agent.resolve_reference(&PriceReference::HighWaterMark), Some(Price(10000)));
}

// A sell that turns a flat agent short starts the cost basis at the sale price.
#[test]
fn short_sale_sets_basis() {
    let mut agent = test_agent();
    agent.process_fill(OrderSide::Sell, Quantity(10), Price(7000), 4, &vec![]);
    assert!(agent.is_short());
    assert_eq!(agent.cost_basis(), Price(7000));
    assert_eq!(agent.remaining_capacity(), Quantity(90));
}

// A trade with itself records both sides.
#[test]
fn self_trade_records_both_sides() {
    let mut agent = test_agent();
    let trade = Trade {
        id: TradeId(1),
        symbol: "ACME".to_string(),
        buyer_id: AgentId(1),
        seller_id: AgentId(1),
        buyer_order_id: OrderId(1),
        seller_order_id: OrderId(2),
        price: Price(10000),
        quantity: Quantity(5),
        timestamp: 0,
        tick: 1,
    };
    agent.on_fill(&trade, &vec![]);
    assert!(agent.is_flat());
    assert_eq!(agent.agent_state().fills_received(), 2);
    assert_eq!(agent.agent_state().cash(), Cash::from_dollars(100_000));
}

// Spawn registers the entry threshold and news subscriptions, not exits.
#[test]
fn spawn_conditions() {
    let agent = ReactiveAgent::new(
        AgentId(3),
        ReactivePortfolio::single("ACME"),
        vec![StrategyKind::ThresholdBuyer { buy_price: Price(900) }, StrategyKind::TakeProfit, StrategyKind::NewsReactor],
        Quantity(10),
        Cash::zero(),
    );
    let conds = agent.initial_wake_conditions(0);
    assert_eq!(conds.len(), 2);
    assert_eq!(conds[0], WakeCondition::price_below("ACME".to_string(), Price(900)));
    assert_eq!(conds[1], WakeCondition::on_news(vec!["ACME".to_string()]));
}

// After a fill opens a position, the exits are registered at their thresholds.
#[test]
fn fill_and_current_conditions() {
    let mut agent = ReactiveAgent::new(
        AgentId(3),
        ReactivePortfolio::single("ACME"),
        vec![
            StrategyKind::ThresholdBuyer { buy_price: Price(900) },
            StrategyKind::StopLoss,
            StrategyKind::ThresholdSeller { sell_price: Price(1200) },
        ],
        Quantity(10),
        Cash::zero(),
    );
    let mut nums = numbers(3);
    nums[1].exit_threshold = Price(850);
    assert!(agent.fill_wake_conditions(&nums).is_empty());
    assert_eq!(agent.current_wake_conditions(&nums), vec![WakeCondition::price_below("ACME".to_string(), Price(900))]);

    agent.process_fill(OrderSide::Buy, Quantity(4), Price(1000), 1, &vec![Price(0), Price(850), Price(0)]);
    let exits = vec![
        WakeCondition::price_below("ACME".to_string(), Price(850)),
        WakeCondition::price_above("ACME".to_string(), Price(1200)),
    ];
    assert_eq!(agent.fill_wake_conditions(&nums), exits);
    assert_eq!(agent.current_wake_conditions(&nums), exits);

    // Opening from flat adds the exits; nothing is removed below capacity.
    let update = agent.compute_condition_update(0).unwrap();
    assert_eq!(update.agent_id, AgentId(3));
    assert_eq!(update.add, exits);
    assert!(update.remove.is_empty());

    // Closing back to flat removes the exits and restores the entry.
    agent.process_fill(OrderSide::Sell, Quantity(4), Price(1100), 2, &vec![]);
    let update = agent.compute_condition_update(4).unwrap();
    assert_eq!(update.remove, exits);
    assert_eq!(update.add, vec![WakeCondition::price_below("ACME".to_string(), Price(900))]);

    // No move, no update.
    assert!(agent.compute_condition_update(0).is_none());
}

// Reaching the maximum position removes the entry condition.
#[test]
fn capacity_removes_entry() {
    let mut agent = ReactiveAgent::new(
        AgentId(5),
        ReactivePortfolio::single("ACME"),
        vec![StrategyKind::ThresholdBuyer { buy_price: Price(900) }, StrategyKind::StopLoss],
        Quantity(10),
        Cash::zero(),
    );
    let nums = numbers(2);
    agent.process_fill(OrderSide::Buy, Quantity(10), Price(900), 1, &vec![]);
    let update = agent.compute_condition_update(0).unwrap();
    assert_eq!(update.remove, vec![WakeCondition::price_below("ACME".to_string(), Price(900))]);
}

// The polling path buys at the buy price, capped by capacity, and stops out below the threshold.
#[test]
fn on_tick_decisions() {
    let mut agent = test_agent();
    let mut nums = numbers(2);
    nums[0].fraction_size = 50;
    nums[1].exit_threshold = Price(921500);

    assert!(agent.on_tick(1, None, &nums).orders.is_empty());
    assert!(agent.on_tick(1, Some(Price(960000)), &nums).orders.is_empty());

    let action = agent.on_tick(2, Some(Price(950000)), &nums);
    assert_eq!(action.orders.len(), 1);
    assert_eq!(action.orders[0].side, OrderSide::Buy);
    assert_eq!(action.orders[0].quantity, Quantity(50));
    assert_eq!(action.orders[0].order_type, OrderType::Market);
    assert_eq!(action.orders[0].symbol, "ACME");

    agent.process_fill(OrderSide::Buy, Quantity(50), Price(950000), 2, &vec![]);
    // Still room for 50: the buyer fires first while the price is low.
    let action = agent.on_tick(3, Some(Price(900000)), &nums);
    assert_eq!(action.orders[0].side, OrderSide::Buy);

    agent.process_fill(OrderSide::Buy, Quantity(50), Price(950000), 3, &vec![]);
    let action = agent.on_tick(4, Some(Price(900000)), &nums);
    assert_eq!(action.orders.len(), 1);
    assert_eq!(action.orders[0].side, OrderSide::Sell);
    assert_eq!(action.orders[0].quantity, Quantity(100));

    agent.set_enabled(false);
    assert!(agent.on_tick(5, Some(Price(1)), &nums).orders.is_empty());
}

// The wake path acts on a price cross and follows news signals within the guards.
#[test]
fn on_wake_decisions() {
    let mut agent = ReactiveAgent::new(
        AgentId(8),
        ReactivePortfolio::single("ACME"),
        vec![StrategyKind::NewsReactor],
        Quantity(100),
        Cash::zero(),
    );
    let mut nums = numbers(1);
    nums[0].news = vec![NewsSignal { side: OrderSide::Sell, size: 5 }, NewsSignal { side: OrderSide::Buy, size: 500 }];
    let prices = vec![("ACME".to_string(), PriceSnapshot::new(Price(10), Price(9), Price(11), Price(8), Price(12), Price(7)))];
    let reasons = vec![WakeCondition::on_news(vec!["ACME".to_string()])];
    let fundamentals = vec![];
    let ctx = LightweightContext { tick: 3, wake_reasons: &reasons, prices: &prices, fundamentals: &fundamentals };
    assert!(!ctx.woke_on_price_cross());
    assert!(ctx.woke_on_news());
    assert!(!ctx.woke_on_time());

    // Flat: the sell signal is not allowed; the buy is capped at the room left.
    let (action, update) = agent.on_wake(&ctx, &nums);
    assert!(update.is_none());
    let action = action.unwrap();
    assert_eq!(action.orders[0].side, OrderSide::Buy);
    assert_eq!(action.orders[0].quantity, Quantity(100));
    assert_eq!(agent.resolve_reference(&PriceReference::OpenPrice), Some(Price(8)));

    // Holding: the sell signal comes first and is capped at the position.
    agent.process_fill(OrderSide::Buy, Quantity(3), Price(10), 3, &vec![]);
    let (action, _) = agent.on_wake(&ctx, &nums);
    let action = action.unwrap();
    assert_eq!(action.orders[0].side, OrderSide::Sell);
    assert_eq!(action.orders[0].quantity, Quantity(3));
}

// A stop loss on a wake acts only when a price cross woke the agent.
#[test]
fn try_strategy_needs_price_cross() {
    let mut agent = test_agent();
    agent.process_fill(OrderSide::Buy, Quantity(10), Price(950000), 1, &vec![]);
    let nums = numbers(2);
    let prices = vec![];
    let fundamentals = vec![];
    let news_only = vec![WakeCondition::on_news(vec!["ACME".to_string()])];
    let ctx = LightweightContext { tick: 3, wake_reasons: &news_only, prices: &prices, fundamentals: &fundamentals };
    assert!(agent.try_strategy(1, &ctx, &nums[1]).is_none());
    let cross = vec![WakeCondition::PriceCross { symbol: "ACME".to_string(), threshold: Price(1), direction: CrossDirection::Below }];
    let ctx = LightweightContext { tick: 3, wake_reasons: &cross, prices: &prices, fundamentals: &fundamentals };
    let action = agent.try_strategy(1, &ctx, &nums[1]).unwrap();
    assert_eq!(action.orders[0].quantity, Quantity(10));
    assert_eq!(action.orders[0].side, OrderSide::Sell);
}

// Closing removes the stop recorded by the opening fill, although the cost
// basis is reset by the closing sale and no update came in between.
#[test]
fn close_out_removes_registered_stop() {
    let mut agent = test_agent();
    agent.process_fill(OrderSide::Buy, Quantity(50), Price(10000), 0, &vec![Price(0), Price(9700)]);
    let update = agent.compute_condition_update(0).unwrap();
    assert_eq!(update.add, vec![WakeCondition::price_below("ACME".to_string(), Price(9700))]);

    agent.process_fill(OrderSide::Sell, Quantity(50), Price(10500), 10, &vec![]);
    assert_eq!(agent.cost_basis(), Price(0));
    let update = agent.compute_condition_update(50).unwrap();
    assert_eq!(update.remove, vec![WakeCondition::price_below("ACME".to_string(), Price(9700))]);
    assert_eq!(update.add, vec![WakeCondition::price_below("ACME".to_string(), Price(950000))]);
}

// With no condition update between opening and closing, the close still
// removes the stop of the closed position.
#[test]
fn close_without_update_between_removes_stop() {
    let mut agent = test_agent();
    agent.process_fill(OrderSide::Buy, Quantity(50), Price(10000), 0, &vec![Price(0), Price(9700)]);
    agent.process_fill(OrderSide::Sell, Quantity(50), Price(10500), 10, &vec![Price(0), Price(10185)]);
    let update = agent.compute_condition_update(50).unwrap();
    assert_eq!(update.remove, vec![WakeCondition::price_below("ACME".to_string(), Price(9700))]);
    assert_eq!(update.add, vec![WakeCondition::price_below("ACME".to_string(), Price(950000))]);
    assert_eq!(agent.agent_state().fills_received(), 2);
}
