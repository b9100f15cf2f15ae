use agents::borrow_ledger::{BorrowLedger, BorrowPosition};
use agents::market::{AgentId, Quantity};

#[test]
fn test_ledger_init_and_availability() {
    let mut ledger = BorrowLedger::new();
    ledger.init_symbol("AAPL", Quantity(1_000_000));

    assert_eq!(ledger.available("AAPL"), Quantity(1_000_000));
    assert_eq!(ledger.available("UNKNOWN"), Quantity::zero());
}

#[test]
fn test_borrow_success() {
    let mut ledger = BorrowLedger::new();
    ledger.init_symbol("AAPL", Quantity(1_000_000));

    let result = ledger.borrow(AgentId(1), "AAPL", Quantity(1_000), 0);
    assert!(result.is_ok());

    assert_eq!(ledger.available("AAPL"), Quantity(999_000));
    assert_eq!(ledger.borrowed(AgentId(1), "AAPL"), Quantity(1_000));
}

#[test]
fn test_borrow_insufficient() {
    let mut ledger = BorrowLedger::new();
    ledger.init_symbol("AAPL", Quantity(500));

    let result = ledger.borrow(AgentId(1), "AAPL", Quantity(1_000), 0);
    assert!(result.is_err());
    assert_eq!(result.unwrap_err(), Quantity(500));
}

#[test]
fn test_multiple_borrows_same_agent() {
    let mut ledger = BorrowLedger::new();
    ledger.init_symbol("AAPL", Quantity(1_000_000));

    ledger.borrow(AgentId(1), "AAPL", Quantity(1_000), 0).unwrap();
    ledger.borrow(AgentId(1), "AAPL", Quantity(500), 10).unwrap();

    assert_eq!(ledger.borrowed(AgentId(1), "AAPL"), Quantity(1_500));
    assert_eq!(ledger.available("AAPL"), Quantity(998_500));
}

#[test]
fn test_multiple_agents() {
    let mut ledger = BorrowLedger::new();
    ledger.init_symbol("AAPL", Quantity(1_000_000));

    ledger.borrow(AgentId(1), "AAPL", Quantity(1_000), 0).unwrap();
    ledger.borrow(AgentId(2), "AAPL", Quantity(2_000), 0).unwrap();

    assert_eq!(ledger.borrowed(AgentId(1), "AAPL"), Quantity(1_000));
    assert_eq!(ledger.borrowed(AgentId(2), "AAPL"), Quantity(2_000));
    assert_eq!(ledger.total_borrowed("AAPL"), Quantity(3_000));
    assert_eq!(ledger.borrower_count(), 2);
}

#[test]
fn test_return_shares() {
    let mut ledger = BorrowLedger::new();
    ledger.init_symbol("AAPL", Quantity(1_000_000));

    ledger.borrow(AgentId(1), "AAPL", Quantity(1_000), 0).unwrap();
    let returned = ledger.return_shares(AgentId(1), "AAPL", Quantity(600));

    assert_eq!(returned, Quantity(600));
    assert_eq!(ledger.borrowed(AgentId(1), "AAPL"), Quantity(400));
    assert_eq!(ledger.available("AAPL"), Quantity(999_600));
}

#[test]
fn test_return_all_shares() {
    let mut ledger = BorrowLedger::new();
    ledger.init_symbol("AAPL", Quantity(1_000_000));

    ledger.borrow(AgentId(1), "AAPL", Quantity(1_000), 0).unwrap();
    let returned = ledger.return_shares(AgentId(1), "AAPL", Quantity(1_000));

    assert_eq!(returned, Quantity(1_000));
    assert_eq!(ledger.borrowed(AgentId(1), "AAPL"), Quantity::zero());
    assert_eq!(ledger.borrower_count(), 0);
}

#[test]
fn test_return_more_than_borrowed() {
    let mut ledger = BorrowLedger::new();
    ledger.init_symbol("AAPL", Quantity(1_000_000));

    ledger.borrow(AgentId(1), "AAPL", Quantity(1_000), 0).unwrap();
    let returned = ledger.return_shares(AgentId(1), "AAPL", Quantity(2_000));

    assert_eq!(returned, Quantity(1_000));
    assert_eq!(ledger.available("AAPL"), Quantity(1_000_000));
}

#[test]
fn test_clear() {
    let mut ledger = BorrowLedger::new();
    ledger.init_symbol("AAPL", Quantity(1_000_000));

    ledger.borrow(AgentId(1), "AAPL", Quantity(1_000), 0).unwrap();
    ledger.borrow(AgentId(2), "AAPL", Quantity(2_000), 0).unwrap();

    ledger.clear();

    assert_eq!(ledger.borrower_count(), 0);
    assert_eq!(ledger.available("AAPL"), Quantity(1_000_000));
}

#[test]
fn test_can_borrow() {
    let mut ledger = BorrowLedger::new();
    ledger.init_symbol("AAPL", Quantity(1_000));

    assert!(ledger.can_borrow("AAPL", Quantity(500)));
    assert!(ledger.can_borrow("AAPL", Quantity(1_000)));
    assert!(!ledger.can_borrow("AAPL", Quantity(1_001)));
}

#[test]
fn test_borrow_position_ticks_held() {
    let position = BorrowPosition::new("AAPL".to_string(), Quantity(100), 10);
    assert_eq!(position.ticks_held(100), 90);
    assert_eq!(position.ticks_held(10), 0);
}

// Borrowing from a symbol that was never initialised fails with the whole request short.
#[test]
fn borrow_unknown_symbol_reports_full_shortfall() {
    let mut ledger = BorrowLedger::new();
    let result = ledger.borrow(AgentId(7), "NONE", Quantity(25), 3);
    assert_eq!(result, Err(Quantity(25)));
    assert_eq!(ledger.borrower_count(), 0);
}

// Returning what was borrowed restores the pool and the agent's balance.
#[test]
fn borrow_then_return_restores_ledger() {
    let mut ledger = BorrowLedger::new();
    ledger.init_symbol("MSFT", Quantity(800));
    ledger.borrow(AgentId(3), "MSFT", Quantity(300), 5).unwrap();
    assert_eq!(ledger.return_shares(AgentId(3), "MSFT", Quantity(300)), Quantity(300));
    assert_eq!(ledger.available("MSFT"), Quantity(800));
    assert_eq!(ledger.borrowed(AgentId(3), "MSFT"), Quantity::zero());
    assert_eq!(ledger.total_borrowed("MSFT"), Quantity::zero());
}

// A return by an agent with no borrow returns nothing.
#[test]
fn return_without_borrow_is_zero() {
    let mut ledger = BorrowLedger::new();
    ledger.init_symbol("MSFT", Quantity(800));
    assert_eq!(ledger.return_shares(AgentId(9), "MSFT", Quantity(10)), Quantity::zero());
    assert_eq!(ledger.available("MSFT"), Quantity(800));
}

// The positions of an agent list each borrowed symbol once.
#[test]
fn agent_positions_lists_each_symbol() {
    let mut ledger = BorrowLedger::new();
    ledger.init_symbol("A", Quantity(100));
    ledger.init_symbol("B", Quantity(100));
    ledger.borrow(AgentId(1), "A", Quantity(10), 1).unwrap();
    ledger.borrow(AgentId(1), "B", Quantity(20), 2).unwrap();
    ledger.borrow(AgentId(1), "A", Quantity(5), 3).unwrap();
    let positions = ledger.agent_positions(AgentId(1));
    assert_eq!(positions.len(), 2);
    let total: u64 = positions.iter().map(|p| p.quantity.0).sum();
    assert_eq!(total, 35);
    assert!(ledger.agent_positions(AgentId(2)).is_empty());
}
