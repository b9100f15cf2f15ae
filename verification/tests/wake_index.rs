use agents::market::{AgentId, Price, Symbol};
use agents::tiers::{ConditionUpdate, CrossDirection, WakeCondition};
use agents::wake_index::WakeConditionIndex;

#[test]
fn test_register_and_unregister() {
    let mut index = WakeConditionIndex::new();
    let agent = AgentId(1);
    let condition = WakeCondition::price_above("ACME".to_string(), Price(10000));

    index.register(agent, condition.clone());

    let stats = index.stats();
    assert_eq!(stats.price_above_count, 1);
    assert_eq!(stats.agent_count, 1);

    index.unregister(agent, &condition);

    let stats = index.stats();
    assert_eq!(stats.price_above_count, 0);
}

#[test]
fn test_time_exact_trigger() {
    let mut index = WakeConditionIndex::new();
    let agent = AgentId(1);

    index.register(agent, WakeCondition::at_tick(100));

    let triggered = index.triggered_by_time_exact(99);
    assert!(triggered.is_empty());

    let triggered = index.triggered_by_time_exact(100);
    assert_eq!(triggered.len(), 1);
    assert_eq!(triggered[0].0, agent);
}

#[test]
fn test_time_interval_trigger() {
    let mut index = WakeConditionIndex::new();
    let agent = AgentId(1);

    index.register(agent, WakeCondition::every_n_ticks(10, 0));

    let triggered = index.triggered_by_time_interval(0);
    assert_eq!(triggered.len(), 1);
    assert_eq!(triggered[0].2, 10);

    index.advance_intervals(0);

    let triggered = index.triggered_by_time_interval(10);
    assert_eq!(triggered.len(), 1);
}

#[test]
fn test_news_trigger() {
    let mut index = WakeConditionIndex::new();
    let agent1 = AgentId(1);
    let agent2 = AgentId(2);

    index.register(agent1, WakeCondition::on_news(vec!["ACME".to_string()]));
    index.register(agent2, WakeCondition::on_news(vec!["ACME".to_string(), "BETA".to_string()]));

    let triggered = index.triggered_by_news(&"ACME".to_string());
    assert_eq!(triggered.len(), 2);

    let triggered = index.triggered_by_news(&"BETA".to_string());
    assert_eq!(triggered.len(), 1);
    assert_eq!(triggered[0], agent2);
}

#[test]
fn test_apply_updates() {
    let mut index = WakeConditionIndex::new();
    let agent = AgentId(1);

    index.register(agent, WakeCondition::at_tick(100));

    let update = ConditionUpdate::new(agent)
        .remove_condition(WakeCondition::at_tick(100))
        .add_condition(WakeCondition::at_tick(200));

    index.apply_updates(vec![update]);

    let triggered_100 = index.triggered_by_time_exact(100);
    assert!(triggered_100.is_empty());

    let triggered_200 = index.triggered_by_time_exact(200);
    assert_eq!(triggered_200.len(), 1);
}

#[test]
fn test_price_below_trigger() {
    let mut index = WakeConditionIndex::new();
    let agent1 = AgentId(1);
    let agent2 = AgentId(2);
    let agent3 = AgentId(3);
    let symbol: Symbol = "ACME".into();

    index.register(
        agent1,
        WakeCondition::PriceCross { symbol: symbol.clone(), threshold: Price::from_dollars(60), direction: CrossDirection::Below },
    );
    index.register(
        agent2,
        WakeCondition::PriceCross { symbol: symbol.clone(), threshold: Price::from_dollars(80), direction: CrossDirection::Below },
    );
    index.register(
        agent3,
        WakeCondition::PriceCross { symbol: symbol.clone(), threshold: Price::from_dollars(65), direction: CrossDirection::Below },
    );

    let current_prices = vec![(symbol.clone(), Price::from_dollars(75))];
    let triggered = index.triggered_by_price(&current_prices);
    println!("Price $75, triggered agents: {:?}", triggered.iter().map(|(id, _)| id.0).collect::<Vec<_>>());
    assert_eq!(triggered.len(), 1, "Only agent2 ($80 threshold) should trigger at price $75");
    assert_eq!(triggered[0].0, agent2);

    let current_prices = vec![(symbol.clone(), Price::from_dollars(55))];
    let triggered = index.triggered_by_price(&current_prices);
    println!("Price $55, triggered agents: {:?}", triggered.iter().map(|(id, _)| id.0).collect::<Vec<_>>());
    assert_eq!(triggered.len(), 3, "All agents should trigger at price $55");

    let current_prices = vec![(symbol.clone(), Price::from_dollars(90))];
    let triggered = index.triggered_by_price(&current_prices);
    println!("Price $90, triggered agents: {:?}", triggered.iter().map(|(id, _)| id.0).collect::<Vec<_>>());
    assert!(triggered.is_empty(), "No agents should trigger at price $90");
}

#[test]
fn test_price_above_trigger() {
    let mut index = WakeConditionIndex::new();
    let agent1 = AgentId(1);
    let agent2 = AgentId(2);
    let agent3 = AgentId(3);
    let symbol: Symbol = "ACME".into();

    index.register(
        agent1,
        WakeCondition::PriceCross { symbol: symbol.clone(), threshold: Price::from_dollars(110), direction: CrossDirection::Above },
    );
    index.register(
        agent2,
        WakeCondition::PriceCross { symbol: symbol.clone(), threshold: Price::from_dollars(90), direction: CrossDirection::Above },
    );
    index.register(
        agent3,
        WakeCondition::PriceCross { symbol: symbol.clone(), threshold: Price::from_dollars(120), direction: CrossDirection::Above },
    );

    let current_prices = vec![(symbol.clone(), Price::from_dollars(100))];
    let triggered = index.triggered_by_price(&current_prices);
    println!("Price $100, triggered agents: {:?}", triggered.iter().map(|(id, _)| id.0).collect::<Vec<_>>());
    assert_eq!(triggered.len(), 1, "Only agent2 ($90 threshold) should trigger at price $100");
    assert_eq!(triggered[0].0, agent2);

    let current_prices = vec![(symbol.clone(), Price::from_dollars(75))];
    let triggered = index.triggered_by_price(&current_prices);
    println!("Price $75, triggered agents: {:?}", triggered.iter().map(|(id, _)| id.0).collect::<Vec<_>>());
    assert!(triggered.is_empty(), "No agents should trigger at price $75");

    let current_prices = vec![(symbol.clone(), Price::from_dollars(125))];
    let triggered = index.triggered_by_price(&current_prices);
    println!("Price $125, triggered agents: {:?}", triggered.iter().map(|(id, _)| id.0).collect::<Vec<_>>());
    assert_eq!(triggered.len(), 3, "All agents should trigger at price $125");
}

// A price exactly at the threshold triggers both directions.
#[test]
fn threshold_is_inclusive() {
    let mut index = WakeConditionIndex::new();
    let s: Symbol = "X".into();
    index.register(AgentId(1), WakeCondition::price_below(s.clone(), Price(500)));
    index.register(AgentId(2), WakeCondition::price_above(s.clone(), Price(500)));
    let triggered = index.triggered_by_price(&[(s.clone(), Price(500))]);
    assert_eq!(triggered.len(), 2);
}

// Unregistering every condition of an agent leaves the index empty.
#[test]
fn unregister_all_clears_agent() {
    let mut index = WakeConditionIndex::new();
    index.register(AgentId(4), WakeCondition::at_tick(7));
    index.register(AgentId(4), WakeCondition::on_news(vec!["N".to_string()]));
    index.register(AgentId(4), WakeCondition::every_n_ticks(3, 0));
    index.unregister_all(AgentId(4));
    let stats = index.stats();
    assert_eq!(stats.time_exact_count, 0);
    assert_eq!(stats.news_subscription_count, 0);
    assert_eq!(stats.time_interval_count, 0);
    assert_eq!(stats.agent_count, 0);
    assert!(index.triggered_by_time_exact(7).is_empty());
}

// Expired exact-time triggers are dropped; later ones stay.
#[test]
fn cleanup_expired_drops_past_ticks() {
    let mut index = WakeConditionIndex::new();
    index.register(AgentId(1), WakeCondition::at_tick(5));
    index.register(AgentId(2), WakeCondition::at_tick(50));
    index.cleanup_expired(10);
    assert!(index.triggered_by_time_exact(5).is_empty());
    assert_eq!(index.triggered_by_time_exact(50).len(), 1);
}

// All triggers of a tick are collected per agent.
#[test]
fn collect_triggered_groups_by_agent() {
    let mut index = WakeConditionIndex::new();
    let s: Symbol = "ACME".into();
    index.register(AgentId(1), WakeCondition::at_tick(10));
    index.register(AgentId(1), WakeCondition::price_below(s.clone(), Price(100)));
    index.register(AgentId(2), WakeCondition::on_news(vec![s.clone()]));
    let grouped = index.collect_triggered(10, &[(s.clone(), Price(90))], &[s.clone()]);
    assert_eq!(grouped.len(), 2);
    let first = grouped.get(&AgentId(1)).unwrap().to_vec();
    assert_eq!(first.len(), 2);
    assert_eq!(first[0], WakeCondition::price_below(s.clone(), Price(100)));
    assert_eq!(first[1], WakeCondition::at_tick(10));
    let second = grouped.get(&AgentId(2)).unwrap().to_vec();
    assert_eq!(second, vec![WakeCondition::on_news(vec![s.clone()])]);
}

// Registering a condition and unregistering it again leaves the triggers as they were.
#[test]
fn unregister_undoes_register() {
    let mut index = WakeConditionIndex::new();
    let s: Symbol = "ACME".into();
    index.register(AgentId(1), WakeCondition::at_tick(3));
    let before = index.stats();
    let c = WakeCondition::price_above(s.clone(), Price(700));
    index.register(AgentId(1), c.clone());
    assert_eq!(index.triggered_by_price(&[(s.clone(), Price(800))]).len(), 1);
    index.unregister(AgentId(1), &c);
    let after = index.stats();
    assert_eq!(after.price_above_count, before.price_above_count);
    assert_eq!(after.price_above_keys, before.price_above_keys);
    assert_eq!(after.time_exact_count, before.time_exact_count);
    assert!(index.triggered_by_price(&[(s.clone(), Price(800))]).is_empty());
    assert_eq!(index.triggered_by_time_exact(3).len(), 1);
}

// Unregistering one interval condition keeps the agent's other intervals.
#[test]
fn unregister_one_interval_keeps_others() {
    let mut index = WakeConditionIndex::new();
    index.register(AgentId(1), WakeCondition::every_n_ticks(10, 0));
    index.register(AgentId(1), WakeCondition::every_n_ticks(5, 0));
    index.unregister(AgentId(1), &WakeCondition::every_n_ticks(10, 0));
    let triggered = index.triggered_by_time_interval(0);
    assert_eq!(triggered.len(), 1);
    assert_eq!(triggered[0].0, AgentId(1));
    assert_eq!(triggered[0].2, 5);
}

// Fired thresholds come nearest first: "below" ones ascending, "above" ones descending.
#[test]
fn price_hits_in_threshold_order() {
    let mut index = WakeConditionIndex::new();
    let s = "ACME".to_string();
    index.register(AgentId(1), WakeCondition::price_below(s.clone(), Price(600_000)));
    index.register(AgentId(2), WakeCondition::price_below(s.clone(), Price(800_000)));
    index.register(AgentId(3), WakeCondition::price_below(s.clone(), Price(650_000)));
    index.register(AgentId(4), WakeCondition::price_above(s.clone(), Price(300_000)));
    index.register(AgentId(5), WakeCondition::price_above(s.clone(), Price(500_000)));

    let hits = index.triggered_by_price(&[(s.clone(), Price(550_000))]);
    let ids: Vec<AgentId> = hits.iter().map(|h| h.0).collect();
    assert_eq!(ids, vec![AgentId(1), AgentId(3), AgentId(2), AgentId(5), AgentId(4)]);

    let hits = index.triggered_by_price(&[(s.clone(), Price(750_000))]);
    let ids: Vec<AgentId> = hits.iter().map(|h| h.0).collect();
    assert_eq!(ids, vec![AgentId(2), AgentId(5), AgentId(4)]);
}
