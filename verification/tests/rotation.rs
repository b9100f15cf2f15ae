use agents::market::Sector;
use agents::rotation::{rebalance_due, SectorUniverse};
use agents::tiers::WakeCondition;

fn universe() -> SectorUniverse {
    SectorUniverse::new()
        .with_sector(Sector::Tech, vec!["AAPL".to_string(), "MSFT".to_string(), "GOOGL".to_string()])
        .with_sector(Sector::Utilities, vec!["XOM".to_string(), "CVX".to_string()])
}

// The universe lists its sectors and all their symbols in order.
#[test]
fn universe_listing() {
    let u = universe();
    assert_eq!(u.watched_sectors(), vec![Sector::Tech, Sector::Utilities]);
    assert_eq!(
        u.all_symbols(),
        vec!["AAPL".to_string(), "MSFT".to_string(), "GOOGL".to_string(), "XOM".to_string(), "CVX".to_string()]
    );
    let conds = u.initial_wake_conditions();
    assert_eq!(conds.len(), 1);
    assert_eq!(conds[0], WakeCondition::on_news(u.all_symbols()));
}

// Sector news is relevant when its sector is watched; other news when its symbol is.
#[test]
fn universe_relevance() {
    let u = universe();
    assert!(u.is_relevant(Some(Sector::Tech), None));
    assert!(!u.is_relevant(Some(Sector::Energy), Some(&"AAPL".to_string())));
    assert!(u.is_relevant(None, Some(&"CVX".to_string())));
    assert!(!u.is_relevant(None, Some(&"IBM".to_string())));
    assert!(!u.is_relevant(None, None));
}

// Replacing a sector's list keeps its place.
#[test]
fn universe_replace_sector() {
    let u = universe().with_sector(Sector::Tech, vec!["IBM".to_string()]);
    assert_eq!(u.watched_sectors(), vec![Sector::Tech, Sector::Utilities]);
    assert_eq!(u.all_symbols(), vec!["IBM".to_string(), "XOM".to_string(), "CVX".to_string()]);
}

// Rebalancing waits for the minimum interval.
#[test]
fn rebalance_interval() {
    assert!(!rebalance_due(15, 10, 10));
    assert!(rebalance_due(20, 10, 10));
    assert!(rebalance_due(0, 0, 0));
}
