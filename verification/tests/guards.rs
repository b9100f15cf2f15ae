use agents::guards::{
    apply_trade, choose_side, clamp_inventory, crossover_signal, order_size_range, periodic_due, refresh_action, side_permissions,
    Crossing, SliceSchedule,
};
use agents::market::{AgentId, Cash, Order, OrderId, OrderSide, Price, Quantity, Trade, TradeId};
use agents::state::AgentState;

fn trade(buyer: u64, seller: u64, price: i64, quantity: u64) -> Trade {
    Trade {
        id: TradeId(1),
        symbol: "ACME".to_string(),
        buyer_id: AgentId(buyer),
        seller_id: AgentId(seller),
        buyer_order_id: OrderId(1),
        seller_order_id: OrderId(2),
        price: Price(price),
        quantity: Quantity(quantity),
        timestamp: 0,
        tick: 1,
    }
}

// A fill updates the buying or selling side; a trade with oneself nets out.
#[test]
fn apply_trade_sides() {
    let mut state = AgentState::new(Cash::from_dollars(1_000), &["ACME"]);
    apply_trade(&mut state, AgentId(1), &trade(1, 2, 1_000_000, 5));
    assert_eq!(state.position_for("ACME"), 5);
    assert_eq!(state.cash(), Cash::from_dollars(500));
    apply_trade(&mut state, AgentId(1), &trade(3, 1, 1_000_000, 2));
    assert_eq!(state.position_for("ACME"), 3);
    assert_eq!(state.cash(), Cash::from_dollars(700));
    apply_trade(&mut state, AgentId(1), &trade(1, 1, 1_000_000, 4));
    assert_eq!(state.position_for("ACME"), 3);
    assert_eq!(state.cash(), Cash::from_dollars(700));
    assert_eq!(state.fills_received(), 4);
    apply_trade(&mut state, AgentId(1), &trade(8, 9, 1_000_000, 4));
    assert_eq!(state.fills_received(), 4);
}

// Buying needs room below the long limit less the size; selling above minus the short limit plus the size.
#[test]
fn permissions_at_limits() {
    assert_eq!(side_permissions(0, 1000, 1000, 100), (true, true));
    assert_eq!(side_permissions(900, 1000, 1000, 100), (false, true));
    assert_eq!(side_permissions(-900, 1000, 1000, 100), (true, false));
    assert_eq!(side_permissions(899, 1000, 1000, 100), (true, true));
}

// The coin decides only when both sides are allowed.
#[test]
fn side_choice() {
    assert_eq!(choose_side(true, true, true), Some(OrderSide::Sell));
    assert_eq!(choose_side(true, true, false), Some(OrderSide::Buy));
    assert_eq!(choose_side(true, false, true), Some(OrderSide::Buy));
    assert_eq!(choose_side(false, true, false), Some(OrderSide::Sell));
    assert_eq!(choose_side(false, false, true), None);
}

// Sizes are capped by the position or the room, then by the maximum; too small a cap gives none.
#[test]
fn size_ranges() {
    assert_eq!(order_size_range(OrderSide::Sell, 30, 100, 1, 50), Some((1, 30)));
    assert_eq!(order_size_range(OrderSide::Buy, 30, 100, 1, 50), Some((1, 50)));
    assert_eq!(order_size_range(OrderSide::Buy, 95, 100, 10, 50), None);
    assert_eq!(order_size_range(OrderSide::Buy, 120, 100, 0, 50), Some((0, 0)));
}

// Inventory clamping and periodic scheduling.
#[test]
fn clamp_and_schedule() {
    assert_eq!(clamp_inventory(500, 100), 100);
    assert_eq!(clamp_inventory(-500, 100), -100);
    assert_eq!(clamp_inventory(42, 100), 42);
    assert!(periodic_due(0, 50, 100));
    assert!(!periodic_due(120, 50, 100));
    assert!(periodic_due(150, 50, 100));
}

// A refresh cancels the outstanding quotes, bid first.
#[test]
fn refresh_cancels_outstanding() {
    let orders = vec![Order::limit(AgentId(1), "ACME", OrderSide::Buy, Price(99), Quantity(10))];
    let a = refresh_action(orders.clone(), Some(OrderId(7)), Some(OrderId(8)));
    assert_eq!(a.orders.len(), 1);
    assert_eq!(a.cancellations, vec![OrderId(7), OrderId(8)]);
    let b = refresh_action(orders, None, None);
    assert!(b.cancellations.is_empty());
}

// A sliced execution shrinks by fills, never below zero.
#[test]
fn slice_schedule() {
    let mut s = SliceSchedule::new(250, 100, 5);
    assert_eq!(s.slice_size(), 100);
    assert!(s.can_place_order(0));
    s.record_order(10);
    assert!(!s.can_place_order(12));
    assert!(s.can_place_order(15));
    s.record_fill(200);
    assert_eq!(s.slice_size(), 50);
    s.record_fill(80);
    assert!(s.is_complete());
}

// A golden cross buys and a death cross sells, once per crossing and
// only within the position limit.
#[test]
fn crossover_signals_once_per_crossing() {
    assert_eq!(crossover_signal(Crossing::Below, Crossing::Above, 0, 500), Some(OrderSide::Buy));
    assert_eq!(crossover_signal(Crossing::Above, Crossing::Above, 0, 500), None);
    assert_eq!(crossover_signal(Crossing::Above, Crossing::Below, 0, 500), Some(OrderSide::Sell));
    assert_eq!(crossover_signal(Crossing::Below, Crossing::Below, 0, 500), None);
    assert_eq!(crossover_signal(Crossing::Unknown, Crossing::Above, 0, 500), None);
    assert_eq!(crossover_signal(Crossing::Below, Crossing::Above, 500, 500), None);
    assert_eq!(crossover_signal(Crossing::Above, Crossing::Below, -500, 500), None);
    assert_eq!(crossover_signal(Crossing::Above, Crossing::Below, -499, 500), Some(OrderSide::Sell));
}
