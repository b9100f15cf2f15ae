use vstd::prelude::*;

pub mod accounting;
pub mod assoc_map;
pub mod borrow_ledger;
pub mod draws;
pub mod guards;
pub mod lists;
pub mod market;
pub mod models;
pub mod news;
pub mod pairs;
pub mod pool;
pub mod position_limits;
pub mod reactive;
pub mod regime;
pub mod rotation;
pub mod sectors;
pub mod state;
pub mod tiers;
pub mod wake_index;

verus! {
} // verus!
