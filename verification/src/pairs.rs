//! The spread-position state machine of pairs trading: entering a long or
//! short spread from flat, and closing both legs.
use vstd::prelude::*;

use crate::market::{AgentId, Order, OrderSide, OrderType, Price, Quantity};

verus! {

/// Current spread position.
#[derive(Debug, Clone, Copy, PartialEq, Eq, Structural)]
pub enum SpreadPosition {
    /// No position in either leg.
    Flat,
    /// Long the first symbol, short the second.
    LongSpread,
    /// Short the first symbol, long the second.
    ShortSpread,
}

/// What the spread's z-score calls for.
#[derive(Debug, Clone, Copy, PartialEq, Eq, Structural)]
pub enum SpreadAction {
    /// Buy the first leg and sell the second.
    EnterLong,
    /// Sell the first leg and buy the second.
    EnterShort,
    /// Close both legs.
    Exit,
    /// Do nothing.
    Hold,
}

/// Whether a new spread may be entered.
pub fn can_enter(position: SpreadPosition) -> (b: bool)
    ensures
        b == (position == SpreadPosition::Flat),
{
    position == SpreadPosition::Flat
}

/// Whether there is a spread to exit.
pub fn can_exit(position: SpreadPosition) -> (b: bool)
    ensures
        b == (position != SpreadPosition::Flat),
{
    position != SpreadPosition::Flat
}

/// The decision for a z-score, given how it compares with the thresholds:
/// `below_entry` when it is under minus the entry threshold, `above_entry`
/// when it is over the entry threshold, `within_exit` when its magnitude is
/// under the exit threshold. From flat a low score enters long and a high
/// one short; while in a spread a score back within the exit band exits.
pub open spec fn decide(position: SpreadPosition, below_entry: bool, above_entry: bool, within_exit: bool) -> SpreadAction {
    match position {
        SpreadPosition::Flat => if below_entry {
            SpreadAction::EnterLong
        } else if above_entry {
            SpreadAction::EnterShort
        } else {
            SpreadAction::Hold
        },
        _ => if within_exit {
            SpreadAction::Exit
        } else {
            SpreadAction::Hold
        },
    }
}

/// The spread position after acting: a move happens only when orders were
/// actually produced for it.
pub open spec fn moved(position: SpreadPosition, action: SpreadAction, orders_placed: bool) -> SpreadPosition {
    if !orders_placed {
        position
    } else {
        match action {
            SpreadAction::EnterLong => SpreadPosition::LongSpread,
            SpreadAction::EnterShort => SpreadPosition::ShortSpread,
            SpreadAction::Exit => SpreadPosition::Flat,
            SpreadAction::Hold => position,
        }
    }
}

/// The decision for a z-score (see [`decide`]).
pub fn spread_decision(position: SpreadPosition, below_entry: bool, above_entry: bool, within_exit: bool) -> (a: SpreadAction)
    ensures
        a == decide(position, below_entry, above_entry, within_exit),
{
    match position {
        SpreadPosition::Flat => {
            if below_entry && can_enter(position) {
                SpreadAction::EnterLong
            } else if above_entry && can_enter(position) {
                SpreadAction::EnterShort
            } else {
                SpreadAction::Hold
            }
        },
        SpreadPosition::LongSpread | SpreadPosition::ShortSpread => {
            if within_exit && can_exit(position) {
                SpreadAction::Exit
            } else {
                SpreadAction::Hold
            }
        },
    }
}

/// The spread position after acting (see [`moved`]).
pub fn spread_after(position: SpreadPosition, action: SpreadAction, orders_placed: bool) -> (p: SpreadPosition)
    ensures
        p == moved(position, action, orders_placed),
{
    if !orders_placed {
        return position;
    }
    match action {
        SpreadAction::EnterLong => SpreadPosition::LongSpread,
        SpreadAction::EnterShort => SpreadPosition::ShortSpread,
        SpreadAction::Exit => SpreadPosition::Flat,
        SpreadAction::Hold => position,
    }
}

/// The order that closes one leg holding `position` shares, when it holds
/// any: sell a long leg, buy back a short one, for the whole size.
pub fn closing_order(position: i64) -> (r: Option<(OrderSide, Quantity)>)
    ensures
        r == (if position == 0 {
            None
        } else if position > 0 {
            Some((OrderSide::Sell, Quantity(position as u64)))
        } else {
            Some((OrderSide::Buy, Quantity((-(position as int)) as u64)))
        }),
{
    if position == 0 {
        None
    } else if position > 0 {
        Some((OrderSide::Sell, Quantity(position as u64)))
    } else {
        let m: u64 = if position == i64::MIN {
            0x8000_0000_0000_0000u64
        } else {
            (-position) as u64
        };
        Some((OrderSide::Buy, Quantity(m)))
    }
}

/// What an order says of one leg: agent, symbol, side, type and size.
pub open spec fn order_terms(o: Order) -> (AgentId, Seq<char>, OrderSide, OrderType, Quantity) {
    (o.agent_id, o.symbol@, o.side, o.order_type, o.quantity)
}

/// The exit of one leg holding `position` shares: a limit order at `price`
/// closing the whole position, when the leg holds any and has a price.
pub open spec fn leg_exit(agent_id: AgentId, symbol: Seq<char>, position: i64, price: Option<Price>) -> Seq<(AgentId, Seq<char>, OrderSide, OrderType, Quantity)> {
    match price {
        Some(p) => if position == 0 {
            Seq::empty()
        } else {
            seq![(
                agent_id,
                symbol,
                if position > 0 { OrderSide::Sell } else { OrderSide::Buy },
                OrderType::Limit { price: p },
                Quantity((if position > 0 { position as int } else { -(position as int) }) as u64),
            )]
        },
        None => Seq::empty(),
    }
}

/// The orders closing both legs of a spread, first leg first: for each leg
/// that holds shares and has a price (`price_a`, `price_b`: the limit price
/// for the leg, none when the leg has no mid price), a limit order selling a
/// long leg or buying back a short one, for the whole position.
pub fn exit_spread(
    agent_id: AgentId,
    symbol_a: &str,
    position_a: i64,
    price_a: Option<Price>,
    symbol_b: &str,
    position_b: i64,
    price_b: Option<Price>,
) -> (r: Vec<Order>)
    ensures
        r@.map_values(|o: Order| order_terms(o)) == leg_exit(agent_id, symbol_a@, position_a, price_a)
            + leg_exit(agent_id, symbol_b@, position_b, price_b),
        forall|i: int| 0 <= i < r@.len() ==> (#[trigger] r@[i]).remaining_quantity == r@[i].quantity,
{
    let mut orders: Vec<Order> = Vec::new();
    match (closing_order(position_a), price_a) {
        (Some((side, quantity)), Some(p)) => orders.push(Order::limit(agent_id, symbol_a, side, p, quantity)),
        _ => {},
    }
    let ghost first = orders@;
    match (closing_order(position_b), price_b) {
        (Some((side, quantity)), Some(p)) => orders.push(Order::limit(agent_id, symbol_b, side, p, quantity)),
        _ => {},
    }
    proof {
        assert(first.map_values(|o: Order| order_terms(o)) =~= leg_exit(agent_id, symbol_a@, position_a, price_a));
        assert(orders@.map_values(|o: Order| order_terms(o)) =~= leg_exit(agent_id, symbol_a@, position_a, price_a)
            + leg_exit(agent_id, symbol_b@, position_b, price_b));
    }
    orders
}

/// The entry of a spread: with both legs priced, the first leg bought and
/// the second sold for a long spread, the reverse for a short one; nothing
/// when either leg has no price.
pub open spec fn entry_legs(
    agent_id: AgentId,
    long: bool,
    symbol_a: Seq<char>,
    price_a: Option<Price>,
    quantity_a: Quantity,
    symbol_b: Seq<char>,
    price_b: Option<Price>,
    quantity_b: Quantity,
) -> Seq<(AgentId, Seq<char>, OrderSide, OrderType, Quantity)> {
    match (price_a, price_b) {
        (Some(pa), Some(pb)) => seq![
            (agent_id, symbol_a, if long { OrderSide::Buy } else { OrderSide::Sell }, OrderType::Limit { price: pa }, quantity_a),
            (agent_id, symbol_b, if long { OrderSide::Sell } else { OrderSide::Buy }, OrderType::Limit { price: pb }, quantity_b),
        ],
        _ => Seq::empty(),
    }
}

/// The orders entering a spread (see [`entry_legs`]): `price_a` and
/// `price_b` are the legs' limit prices, none when a leg has no mid price.
pub fn enter_spread(
    agent_id: AgentId,
    long: bool,
    symbol_a: &str,
    price_a: Option<Price>,
    quantity_a: Quantity,
    symbol_b: &str,
    price_b: Option<Price>,
    quantity_b: Quantity,
) -> (r: Vec<Order>)
    ensures
        r@.map_values(|o: Order| order_terms(o)) == entry_legs(
            agent_id,
            long,
            symbol_a@,
            price_a,
            quantity_a,
            symbol_b@,
            price_b,
            quantity_b,
        ),
        forall|i: int| 0 <= i < r@.len() ==> (#[trigger] r@[i]).remaining_quantity == r@[i].quantity,
{
    let mut orders: Vec<Order> = Vec::new();
    match (price_a, price_b) {
        (Some(pa), Some(pb)) => {
            let (side_a, side_b) = if long {
                (OrderSide::Buy, OrderSide::Sell)
            } else {
                (OrderSide::Sell, OrderSide::Buy)
            };
            orders.push(Order::limit(agent_id, symbol_a, side_a, pa, quantity_a));
            orders.push(Order::limit(agent_id, symbol_b, side_b, pb, quantity_b));
        },
        _ => {},
    }
    proof {
        assert(orders@.map_values(|o: Order| order_terms(o)) =~= entry_legs(
            agent_id,
            long,
            symbol_a@,
            price_a,
            quantity_a,
            symbol_b@,
            price_b,
            quantity_b,
        ));
    }
    orders
}

/// The orders of one tick of pairs trading: the entry or exit legs that the
/// decision calls for, none when it holds.
pub open spec fn step_orders(
    action: SpreadAction,
    long_entry: Seq<(AgentId, Seq<char>, OrderSide, OrderType, Quantity)>,
    short_entry: Seq<(AgentId, Seq<char>, OrderSide, OrderType, Quantity)>,
    exit: Seq<(AgentId, Seq<char>, OrderSide, OrderType, Quantity)>,
) -> Seq<(AgentId, Seq<char>, OrderSide, OrderType, Quantity)> {
    match action {
        SpreadAction::EnterLong => long_entry,
        SpreadAction::EnterShort => short_entry,
        SpreadAction::Exit => exit,
        SpreadAction::Hold => Seq::empty(),
    }
}

/// One tick of pairs trading, from the z-score comparisons to the new
/// spread position: the position changes only when orders went out; a long
/// spread is entered only on a low score, by buying the first leg and
/// selling the second; a short one only on a high score, by selling the
/// first and buying the second; a spread is left only with the score back
/// within the exit band; and a long spread never turns straight into a
/// short one or back.
pub proof fn lemma_spread_step(
    position: SpreadPosition,
    below_entry: bool,
    above_entry: bool,
    within_exit: bool,
    agent_id: AgentId,
    symbol_a: Seq<char>,
    symbol_b: Seq<char>,
    entry_price_a: Option<Price>,
    entry_price_b: Option<Price>,
    quantity_a: Quantity,
    quantity_b: Quantity,
    position_a: i64,
    position_b: i64,
    exit_price_a: Option<Price>,
    exit_price_b: Option<Price>,
)
    ensures
        ({
            let action = decide(position, below_entry, above_entry, within_exit);
            let orders = step_orders(
                action,
                entry_legs(agent_id, true, symbol_a, entry_price_a, quantity_a, symbol_b, entry_price_b, quantity_b),
                entry_legs(agent_id, false, symbol_a, entry_price_a, quantity_a, symbol_b, entry_price_b, quantity_b),
                leg_exit(agent_id, symbol_a, position_a, exit_price_a) + leg_exit(agent_id, symbol_b, position_b, exit_price_b),
            );
            let after = moved(position, action, orders.len() > 0);
            &&& after != position ==> orders.len() > 0
            &&& position == SpreadPosition::Flat && after == SpreadPosition::LongSpread ==> {
                &&& below_entry
                &&& orders.len() == 2
                &&& orders[0].1 == symbol_a && orders[0].2 == OrderSide::Buy
                &&& orders[1].1 == symbol_b && orders[1].2 == OrderSide::Sell
            }
            &&& position == SpreadPosition::Flat && after == SpreadPosition::ShortSpread ==> {
                &&& !below_entry && above_entry
                &&& orders.len() == 2
                &&& orders[0].1 == symbol_a && orders[0].2 == OrderSide::Sell
                &&& orders[1].1 == symbol_b && orders[1].2 == OrderSide::Buy
            }
            &&& position != SpreadPosition::Flat && after == SpreadPosition::Flat ==> within_exit
            &&& !(position == SpreadPosition::LongSpread && after == SpreadPosition::ShortSpread)
            &&& !(position == SpreadPosition::ShortSpread && after == SpreadPosition::LongSpread)
        }),
{
}

/// An open spread is never entered again, and it returns to flat once the
/// z-score is back within the exit band and the closing orders went out;
/// from flat, nothing but an entry signal moves the position.
pub proof fn lemma_spread_cycle(position: SpreadPosition, below_entry: bool, above_entry: bool, within_exit: bool, placed: bool)
    ensures
        position != SpreadPosition::Flat ==> {
            let a = decide(position, below_entry, above_entry, within_exit);
            &&& a != SpreadAction::EnterLong && a != SpreadAction::EnterShort
            &&& (within_exit && placed ==> moved(position, a, placed) == SpreadPosition::Flat)
            &&& (!within_exit ==> moved(position, a, placed) == position)
        },
        position == SpreadPosition::Flat && !below_entry && !above_entry
            ==> moved(position, decide(position, below_entry, above_entry, within_exit), placed) == SpreadPosition::Flat,
{
}

} // verus!
