//! The integer steps of background order flow: how many orders a tick
//! gets, which symbol an order trades, and where its price lands relative
//! to the mid price.
use vstd::prelude::*;

use rand::rngs::StdRng;

use crate::assoc_map::AssocMap;
use crate::draws::{pick_symbol, random_between};
use crate::market::{AgentId, Order, OrderSide, Price, Quantity, Symbol};

verus! {

/// The agent id every background order carries.
pub fn background_pool_id() -> (id: AgentId)
    ensures
        id == AgentId(0),
{
    AgentId(0)
}

/// The lowest price a background order may carry: one cent in fixed point.
pub open spec fn price_floor() -> i64 {
    100
}

/// The price of a background order: a buy sits the size of `offset` below
/// the mid price, a sell the same above it, and no order goes below one cent.
pub fn pool_price(mid: Price, offset: i64, side: OrderSide) -> (p: Price)
    requires
        offset > i64::MIN,
        i64::MIN <= mid.0 - (if offset >= 0 { offset as int } else { -offset }) ,
        mid.0 + (if offset >= 0 { offset as int } else { -offset }) <= i64::MAX,
    ensures
        p.0 == order_price(mid.0, offset, side),
{
    let size: i64 = if offset >= 0 { offset } else { -offset };
    let raw = match side {
        OrderSide::Buy => mid.0 - size,
        OrderSide::Sell => mid.0 + size,
    };
    Price(if raw >= 100 { raw } else { 100 })
}

/// The expected count moved by `adjustment`, never below zero.
pub fn adjusted_count(expected: usize, adjustment: i64) -> (n: usize)
    requires
        expected <= i64::MAX,
        i64::MIN <= expected + adjustment <= i64::MAX,
        expected + adjustment <= usize::MAX,
    ensures
        n == (if expected + adjustment > 0 { expected + adjustment } else { 0 }),
{
    let total = expected as i64 + adjustment;
    if total > 0 {
        total as usize
    } else {
        0
    }
}

/// The number of orders of a tick: the expected count moved by a random
/// adjustment of at most `variance` either way, never below zero.
pub fn jittered_count(rng: &mut StdRng, expected: usize, variance: i64) -> (n: usize)
    requires
        variance >= 0,
        expected + variance <= i64::MAX,
        expected + variance <= usize::MAX,
    ensures
        expected - variance <= n <= expected + variance,
{
    let adjustment = random_between(rng, -variance, variance);
    adjusted_count(expected, adjustment)
}

/// An order size held within `[min_size, max_size]`.
pub fn clamp_order_size(size: u64, min_size: u64, max_size: u64) -> (q: Quantity)
    requires
        min_size <= max_size,
    ensures
        q.0 == (if size < min_size { min_size } else if size > max_size { max_size } else { size }),
{
    Quantity(if size < min_size {
        min_size
    } else if size > max_size {
        max_size
    } else {
        size
    })
}

/// The mid price of a symbol, if known.
pub fn mid_price_of(mid_prices: &AssocMap<Symbol, Price>, symbol: &Symbol) -> (r: Option<Price>)
    requires
        mid_prices.wf(),
    ensures
        r == (if mid_prices.map().contains_key(symbol@) { Some(mid_prices.map()[symbol@]) } else { None }),
{
    match mid_prices.get(symbol) {
        Some(p) => Some(*p),
        None => None,
    }
}

/// The price of a background order on a symbol whose mid price is `mid`.
pub open spec fn order_price(mid: i64, offset: i64, side: OrderSide) -> i64 {
    let size: int = if offset >= 0 { offset as int } else { -offset };
    let raw: int = match side {
        OrderSide::Buy => mid - size,
        OrderSide::Sell => mid + size,
    };
    (if raw >= price_floor() { raw } else { price_floor() as int }) as i64
}

/// Whether a mid price leaves room for `offset` either way.
pub open spec fn offset_fits(mid: i64, offset: i64) -> bool {
    let size: int = if offset >= 0 { offset as int } else { -offset };
    &&& offset > i64::MIN
    &&& i64::MIN <= mid - size
    &&& mid + size <= i64::MAX
}

/// Whether every known mid price leaves room for `offset` either way.
pub open spec fn offsets_fit(mid_prices: Map<Seq<char>, Price>, offset: i64) -> bool {
    &&& offset > i64::MIN
    &&& forall|k: Seq<char>| #[trigger] mid_prices.contains_key(k) ==> offset_fits(mid_prices[k].0, offset)
}

/// A background limit order for `quantity` shares of `symbol`, priced by
/// `pool_price` around its mid price; none when the symbol has no mid price.
pub fn pool_order_for(
    symbol: &Symbol,
    mid_prices: &AssocMap<Symbol, Price>,
    side: OrderSide,
    offset: i64,
    quantity: Quantity,
) -> (r: Option<Order>)
    requires
        mid_prices.wf(),
        offset > i64::MIN,
        mid_prices.map().contains_key(symbol@) ==> offset_fits(mid_prices.map()[symbol@].0, offset),
    ensures
        match r {
            None => !mid_prices.map().contains_key(symbol@),
            Some(o) => mid_prices.map().contains_key(symbol@)
                && o.symbol@ == symbol@
                && o.agent_id == AgentId(0)
                && o.side == side
                && o.quantity == quantity
                && o.remaining_quantity == quantity
                && o.order_type == (crate::market::OrderType::Limit {
                    price: Price(order_price(mid_prices.map()[symbol@].0, offset, side)),
                }),
        },
{
    let mid = match mid_price_of(mid_prices, symbol) {
        Some(m) => m,
        None => {
            return None;
        },
    };
    let price = pool_price(mid, offset, side);
    Some(Order::limit(background_pool_id(), symbol.as_str(), side, price, quantity))
}

/// A background order on a randomly chosen symbol of `symbols` (see
/// `pool_order_for`); none when there are no symbols. The side, offset and
/// size come from the caller's distributions.
pub fn pool_order(
    rng: &mut StdRng,
    symbols: &Vec<Symbol>,
    mid_prices: &AssocMap<Symbol, Price>,
    side: OrderSide,
    offset: i64,
    quantity: Quantity,
) -> (r: Option<Order>)
    requires
        mid_prices.wf(),
        offsets_fit(mid_prices.map(), offset),
    ensures
        symbols@.len() == 0 ==> r is None,
        symbols@.len() > 0 && (forall|i: int| 0 <= i < symbols@.len() ==> #[trigger] mid_prices.map().contains_key(symbols@[i]@))
            ==> r is Some,
        r is None ==> symbols@.len() == 0
            || exists|i: int| 0 <= i < symbols@.len() && !#[trigger] mid_prices.map().contains_key(symbols@[i]@),
        r matches Some(o) ==> {
            &&& exists|i: int| 0 <= i < symbols@.len() && symbols@[i]@ == o.symbol@
            &&& mid_prices.map().contains_key(o.symbol@)
            &&& o.agent_id == AgentId(0)
            &&& o.side == side
            &&& o.quantity == quantity
            &&& o.order_type == (crate::market::OrderType::Limit {
                price: Price(order_price(mid_prices.map()[o.symbol@].0, offset, side)),
            })
        },
{
    if symbols.len() == 0 {
        return None;
    }
    let symbol = pick_symbol(rng, symbols);
    pool_order_for(&symbol, mid_prices, side, offset, quantity)
}

} // verus!
