use agents::market::Sector;
use agents::news::{pick_sector, EventKind, EventWindow, NewsKind, NewsSchedule};
use agents::sectors::SectorModel;
use rand::rngs::StdRng;
use rand::SeedableRng;

// The window of an event that starts at tick 100 and lasts 50 ticks.
#[test]
fn test_event_is_active() {
    let window = EventWindow { start_tick: 100, duration_ticks: 50 };

    assert!(!window.is_active(99));
    assert!(window.is_active(100));
    assert!(window.is_active(125));
    assert!(window.is_active(149));
    assert!(!window.is_active(150));
}

#[test]
fn test_fundamental_event_properties() {
    let earnings = EventKind::EarningsSurprise { symbol: "AAPL".to_string() };
    assert_eq!(earnings.symbol(), Some(&"AAPL".to_string()));
    assert!(earnings.is_permanent());

    let sector = EventKind::SectorNews { sector: Sector::Tech };
    assert_eq!(sector.sector(), Some(Sector::Tech));
    assert!(!sector.is_permanent());
}

// Rate decisions concern no symbol or sector and are permanent; a zero-length window is never active.
#[test]
fn rate_decision_and_empty_window() {
    let rate = EventKind::RateDecision;
    assert_eq!(rate.symbol(), None);
    assert_eq!(rate.sector(), None);
    assert!(rate.is_permanent());
    let guidance = EventKind::GuidanceChange { symbol: "MSFT".to_string() };
    assert_eq!(guidance.symbol(), Some(&"MSFT".to_string()));
    assert_eq!(guidance.sector(), None);
    assert!(!EventWindow { start_tick: 5, duration_ticks: 0 }.is_active(5));
}

// Each kind of news waits its minimum interval after it occurred; ids advance.
#[test]
fn news_schedule_intervals() {
    let mut s = NewsSchedule::new();
    assert!(s.interval_open(NewsKind::Earnings, 0, 10));
    assert_eq!(s.record(NewsKind::Earnings, 5), 1);
    assert_eq!(s.next_id, 2);
    assert!(!s.interval_open(NewsKind::Earnings, 14, 10));
    assert!(s.interval_open(NewsKind::Earnings, 15, 10));
    assert!(s.interval_open(NewsKind::Guidance, 6, 10));
    assert_eq!(s.record(NewsKind::SectorNews, 6), 2);
    assert_eq!(s.last_sector_tick, Some(6));
}

// Sector picks come from the sectors that have symbols, or from all sectors.
#[test]
fn sector_picks() {
    let mut rng = StdRng::seed_from_u64(11);
    let mut model = SectorModel::new();
    let any = pick_sector(&mut rng, &model);
    assert!(Sector::all().contains(&any));
    model.add("XOM", Sector::Energy);
    model.add("AAPL", Sector::Tech);
    for _ in 0..20 {
        let s = pick_sector(&mut rng, &model);
        assert!(s == Sector::Energy || s == Sector::Tech);
    }
}
