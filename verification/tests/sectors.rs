use agents::market::Sector;
use agents::sectors::SectorModel;

#[test]
fn test_sector_model_add_and_lookup() {
    let mut model = SectorModel::new();
    model.add("AAPL", Sector::Tech);
    model.add("MSFT", Sector::Tech);

    assert_eq!(model.sector(&"AAPL".to_string()), Some(Sector::Tech));
    assert_eq!(model.sector(&"GOOG".to_string()), None);
}

#[test]
fn test_symbols_in_sector() {
    let mut model = SectorModel::new();
    model.add("AAPL", Sector::Tech);
    model.add("MSFT", Sector::Tech);
    model.add("GOOG", Sector::Tech);

    let tech_symbols = model.symbols_in_sector(Sector::Tech);
    assert_eq!(tech_symbols.len(), 3);
    assert!(tech_symbols.contains(&"AAPL".to_string()));
    assert!(tech_symbols.contains(&"MSFT".to_string()));
}

#[test]
fn test_is_in_sector() {
    let mut model = SectorModel::new();
    model.add("AAPL", Sector::Tech);

    assert!(model.is_in_sector(&"AAPL".to_string(), Sector::Tech));
    assert!(!model.is_in_sector(&"AAPL".to_string(), Sector::Utilities));
    assert!(!model.is_in_sector(&"XOM".to_string(), Sector::Utilities));
}

// Counting, listing and the empty model.
#[test]
fn model_listing() {
    let mut model = SectorModel::default();
    assert!(model.is_empty());
    assert!(model.symbols_in_sector(Sector::Energy).is_empty());
    model.add("XOM", Sector::Energy);
    model.add("AAPL", Sector::Tech);
    model.add("CVX", Sector::Energy);
    assert_eq!(model.len(), 3);
    assert!(!model.is_empty());
    assert_eq!(model.symbols(), vec!["XOM".to_string(), "AAPL".to_string(), "CVX".to_string()]);
    assert_eq!(model.active_sectors(), vec![Sector::Energy, Sector::Tech]);
    assert_eq!(model.symbols_in_sector(Sector::Energy), vec!["XOM".to_string(), "CVX".to_string()]);
}

// Re-adding a symbol under another sector moves it in the forward map and files it again.
#[test]
fn readd_moves_symbol() {
    let mut model = SectorModel::new();
    model.add("ACME", Sector::Tech);
    model.add("ACME", Sector::Healthcare);
    assert_eq!(model.sector(&"ACME".to_string()), Some(Sector::Healthcare));
    assert_eq!(model.len(), 1);
    assert_eq!(model.symbols_in_sector(Sector::Healthcare), vec!["ACME".to_string()]);
    assert_eq!(model.symbols_in_sector(Sector::Tech), vec!["ACME".to_string()]);
}
