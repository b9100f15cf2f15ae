use agents::market::{AgentId, Price};
use agents::tiers::{every_n_due, ConditionUpdate, FixedFrequency, CrossDirection, OrderedPrice, WakeCondition};

#[test]
fn test_wake_condition_constructors() {
    let symbol = "ACME".to_string();

    let below = WakeCondition::price_below(symbol.clone(), Price(1000));
    assert!(matches!(below, WakeCondition::PriceCross { direction: CrossDirection::Below, .. }));

    let above = WakeCondition::price_above(symbol.clone(), Price(2000));
    assert!(matches!(above, WakeCondition::PriceCross { direction: CrossDirection::Above, .. }));

    let at_tick = WakeCondition::at_tick(100);
    assert!(matches!(at_tick, WakeCondition::TimeExact { wake_tick } if wake_tick == 100));
}

#[test]
fn test_ordered_price() {
    let p1 = OrderedPrice(100);
    let p2 = OrderedPrice(200);
    let p3 = OrderedPrice(100);

    assert!(p1 < p2);
    assert!(p2 > p1);
    assert_eq!(p1, p3);

    let price = Price(1500);
    let ordered = OrderedPrice::from_price(price);
    assert_eq!(ordered.to_price(), price);
}

#[test]
fn test_condition_update_builder() {
    let update = ConditionUpdate::new(AgentId(42))
        .remove_condition(WakeCondition::at_tick(100))
        .add_condition(WakeCondition::at_tick(200));

    assert_eq!(update.agent_id, AgentId(42));
    assert_eq!(update.remove.len(), 1);
    assert_eq!(update.add.len(), 1);
    assert!(!update.is_empty());
}

// An every-n schedule runs on multiples of n only; n = 0 runs at tick 0 only.
#[test]
fn every_n_schedule() {
    assert!(every_n_due(0, 10));
    assert!(!every_n_due(1, 10));
    assert!(every_n_due(10, 10));
    assert!(!every_n_due(15, 10));
    assert!(every_n_due(20, 10));
    assert!(every_n_due(0, 0));
    assert!(!every_n_due(5, 0));
    assert!(every_n_due(7, 1));
}

// A duplicate is the same condition; conditions of different kinds differ.
#[test]
fn duplicate_and_compare_conditions() {
    let c = WakeCondition::on_news(vec!["A".to_string(), "B".to_string()]);
    let d = c.duplicate();
    assert!(c.same_as(&d));
    assert_eq!(c, d);
    assert!(!c.same_as(&WakeCondition::at_tick(3)));
    assert!(!WakeCondition::every_n_ticks(5, 0).same_as(&WakeCondition::every_n_ticks(5, 1)));
    assert!(WakeCondition::price_below("X".to_string(), Price(1)).is_price_cross());
    assert!(!WakeCondition::at_tick(1).is_price_cross());
}

// Converting a price to an ordered key and back keeps its value.
#[test]
fn ordered_price_conversions() {
    let o: OrderedPrice = Price(-42).into();
    assert_eq!(o, OrderedPrice(-42));
    let p: Price = o.into();
    assert_eq!(p, Price(-42));
    assert!(ConditionUpdate::new(AgentId(1)).is_empty());
}

#[test]
fn test_tick_frequency_every_tick() {
    let freq = FixedFrequency::EveryTick;
    for i in 0u64..100 {
        assert!(freq.should_run(i));
    }
}

#[test]
fn test_tick_frequency_every_n() {
    let freq = FixedFrequency::EveryN(10);
    assert!(freq.should_run(0));
    assert!(!freq.should_run(1));
    assert!(freq.should_run(10));
    assert!(!freq.should_run(15));
    assert!(freq.should_run(20));
}
