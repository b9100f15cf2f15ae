use agents::assoc_map::AssocMap;
use agents::market::{Cash, Price, Symbol};
use agents::state::AgentState;

#[test]
fn test_agent_state_record_orders() {
    let mut state = AgentState::default();
    state.record_order();
    assert_eq!(state.orders_placed(), 1);
    state.record_orders(3);
    assert_eq!(state.orders_placed(), 4);
}

#[test]
fn test_multi_symbol_state() {
    let mut state = AgentState::new(Cash::from_dollars(100_000), &["AAPL", "GOOGL"]);

    state.on_buy("AAPL", 100, Cash::from_dollars(15_000));
    assert_eq!(state.position_for("AAPL"), 100);
    assert_eq!(state.position_for("GOOGL"), 0);
    assert_eq!(state.position(), 100);

    state.on_buy("GOOGL", 50, Cash::from_dollars(7_500));
    assert_eq!(state.position_for("GOOGL"), 50);
    assert_eq!(state.position(), 150);

    assert_eq!(state.cash(), Cash::from_dollars(77_500));
}

#[test]
fn test_equity() {
    let mut state = AgentState::new(Cash::from_dollars(50_000), &["AAPL", "GOOGL"]);

    state.set_position(&"AAPL".to_string(), 100);
    state.set_position(&"GOOGL".to_string(), 20);

    let mut prices: AssocMap<Symbol, Price> = AssocMap::new();
    prices.insert("AAPL".to_string(), Price::from_dollars(150));
    prices.insert("GOOGL".to_string(), Price::from_dollars(100));

    let equity = state.equity(&prices);
    assert_eq!(equity, Cash::from_dollars(67_000));
}

#[test]
fn test_equity_for_single_symbol() {
    let mut state = AgentState::new(Cash::from_dollars(50_000), &["ACME"]);
    state.set_position(&"ACME".to_string(), 100);

    let equity = state.equity_for("ACME", Price::from_dollars(150));
    assert_eq!(equity, Cash::from_dollars(65_000));
}

// A fresh state is flat in every tracked symbol and holds its initial cash.
#[test]
fn new_state_is_flat() {
    let state = AgentState::new(Cash::from_dollars(10_000), &["ACME"]);
    assert_eq!(state.position(), 0);
    assert_eq!(state.position_for("ACME"), 0);
    assert_eq!(state.cash(), Cash::from_dollars(10_000));
    assert_eq!(state.orders_placed(), 0);
    assert_eq!(state.fills_received(), 0);
}

// Buying and then selling the same quantity restores the position; cash moves by the value difference.
#[test]
fn buy_then_sell_round_trip() {
    let mut state = AgentState::new(Cash::from_dollars(10_000), &["ACME"]);
    state.on_buy("ACME", 100, Cash::from_dollars(1_000));
    state.on_sell("ACME", 100, Cash::from_dollars(1_200));
    assert_eq!(state.position_for("ACME"), 0);
    assert_eq!(state.cash(), Cash::from_dollars(10_200));
    assert_eq!(state.fills_received(), 2);
}

// Selling without a position opens a short.
#[test]
fn sell_opens_short() {
    let mut state = AgentState::new(Cash::from_dollars(100_000), &["ACME"]);
    state.on_sell("ACME", 100, Cash::from_dollars(5_000));
    assert_eq!(state.position_for("ACME"), -100);
    assert_eq!(state.cash(), Cash::from_dollars(105_000));
}

// A symbol the state did not track starts at zero and is added by a fill.
#[test]
fn untracked_symbol_is_added_by_fill() {
    let mut state = AgentState::new(Cash::from_dollars(1_000), &["ACME"]);
    assert_eq!(state.position_for("NEW"), 0);
    state.on_buy("NEW", 5, Cash::from_dollars(50));
    assert_eq!(state.position_for("NEW"), 5);
    assert_eq!(state.symbols().len(), 2);
}

// Equity ignores positions without a price.
#[test]
fn equity_without_price_counts_cash_only() {
    let mut state = AgentState::new(Cash::from_dollars(500), &["ACME"]);
    state.set_position(&"ACME".to_string(), 10);
    let prices: AssocMap<Symbol, Price> = AssocMap::new();
    assert_eq!(state.equity(&prices), Cash::from_dollars(500));
}

#[test]
fn test_agent_state_new() {
    let state = AgentState::new(Cash::from_dollars(10_000), &["ACME"]);
    assert_eq!(state.position(), 0);
    assert_eq!(state.position_for("ACME"), 0);
    assert_eq!(state.cash(), Cash::from_dollars(10_000));
    assert_eq!(state.orders_placed(), 0);
    assert_eq!(state.fills_received(), 0);
}

#[test]
fn test_agent_state_on_buy() {
    let mut state = AgentState::new(Cash::from_dollars(10_000), &["ACME"]);
    state.on_buy("ACME", 100, Cash::from_dollars(1_000));
    assert_eq!(state.position_for("ACME"), 100);
    assert_eq!(state.position(), 100);
    assert_eq!(state.cash(), Cash::from_dollars(9_000));
    assert_eq!(state.fills_received(), 1);
}

#[test]
fn test_agent_state_on_sell() {
    let mut state = AgentState::new(Cash::from_dollars(10_000), &["ACME"]);
    state.on_buy("ACME", 100, Cash::from_dollars(1_000));
    state.on_sell("ACME", 50, Cash::from_dollars(600));
    assert_eq!(state.position_for("ACME"), 50);
    assert_eq!(state.cash(), Cash::from_dollars(9_600));
    assert_eq!(state.fills_received(), 2);
}
