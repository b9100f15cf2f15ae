use agents::assoc_map::AssocMap;
use agents::draws::pick_symbol;
use agents::market::{AgentId, OrderSide, OrderType, Price, Quantity, Symbol};
use agents::pool::{adjusted_count, background_pool_id, jittered_count, pool_order, pool_order_for, pool_price};
use rand::rngs::StdRng;
use rand::SeedableRng;

// Buys sit below the mid price and sells above it, by the size of the offset; one cent is the floor.
#[test]
fn pool_prices() {
    assert_eq!(pool_price(Price(1_000_000), 2_500, OrderSide::Buy), Price(997_500));
    assert_eq!(pool_price(Price(1_000_000), -2_500, OrderSide::Buy), Price(997_500));
    assert_eq!(pool_price(Price(1_000_000), -2_500, OrderSide::Sell), Price(1_002_500));
    assert_eq!(pool_price(Price(150), 400, OrderSide::Buy), Price(100));
}

// Counts move by the adjustment and never go negative; random jitter stays within the variance.
#[test]
fn order_counts() {
    assert_eq!(adjusted_count(100, -20), 80);
    assert_eq!(adjusted_count(5, -20), 0);
    assert_eq!(adjusted_count(5, 7), 12);
    let mut rng = StdRng::seed_from_u64(7);
    for _ in 0..100 {
        let n = jittered_count(&mut rng, 1000, 200);
        assert!((800..=1200).contains(&n));
    }
}

// Orders carry the pool id and land on a listed symbol with a mid price.
#[test]
fn pool_orders() {
    let mut mids: AssocMap<Symbol, Price> = AssocMap::new();
    mids.insert("ACME".to_string(), Price(1_000_000));
    let o = pool_order_for(&"ACME".to_string(), &mids, OrderSide::Sell, 100, Quantity(7)).unwrap();
    assert_eq!(o.agent_id, background_pool_id());
    assert_eq!(o.agent_id, AgentId(0));
    assert_eq!(o.order_type, OrderType::Limit { price: Price(1_000_100) });
    assert_eq!(o.quantity, Quantity(7));
    assert!(pool_order_for(&"NONE".to_string(), &mids, OrderSide::Sell, 100, Quantity(7)).is_none());

    let mut rng = StdRng::seed_from_u64(3);
    let symbols = vec!["ACME".to_string()];
    let o = pool_order(&mut rng, &symbols, &mids, OrderSide::Buy, 100, Quantity(2)).unwrap();
    assert_eq!(o.symbol, "ACME");
    assert!(pool_order(&mut rng, &vec![], &mids, OrderSide::Buy, 100, Quantity(2)).is_none());
    let symbols = vec!["A".to_string(), "B".to_string(), "C".to_string()];
    for _ in 0..50 {
        let s = pick_symbol(&mut rng, &symbols);
        assert!(symbols.contains(&s));
    }
}
