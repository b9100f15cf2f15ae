//! Position guards, order scheduling and fill bookkeeping shared by the
//! polled (every-tick) strategies: which sides an agent may trade within
//! its position limits, how large an order may be, when quotes or slices
//! are due, and how a trade updates the agent's state.
use vstd::prelude::*;

use crate::market::{AgentId, Order, OrderId, OrderSide, Trade};
use crate::reactive::AgentAction;
use crate::state::AgentState;

verus! {

/// Record a trade in an agent's state: the buying side if the agent bought,
/// the selling side if it sold, both for a trade with itself.
pub fn apply_trade(state: &mut AgentState, agent_id: AgentId, trade: &Trade)
    requires
        old(state).wf(),
        trade.quantity.0 <= i64::MAX,
        i64::MIN <= trade.price.0 * trade.quantity.0 <= i64::MAX,
        old(state).fills_spec() + 2 <= u64::MAX,
        trade.buyer_id == agent_id ==> old(state).position_of(trade.symbol@) + trade.quantity.0 <= i64::MAX
            && i64::MIN <= old(state).cash_spec().0 - trade.price.0 * trade.quantity.0 <= i64::MAX,
        trade.seller_id == agent_id ==> ({
            let bought = if trade.buyer_id == agent_id { trade.quantity.0 as int } else { 0 };
            let paid = if trade.buyer_id == agent_id { trade.price.0 * trade.quantity.0 } else { 0 };
            &&& old(state).position_of(trade.symbol@) + bought - trade.quantity.0 >= i64::MIN
            &&& i64::MIN <= old(state).cash_spec().0 - paid + trade.price.0 * trade.quantity.0 <= i64::MAX
        }),
    ensures
        final(state).wf(),
        ({
            let bought: int = if trade.buyer_id == agent_id { trade.quantity.0 as int } else { 0 };
            let sold: int = if trade.seller_id == agent_id { trade.quantity.0 as int } else { 0 };
            let fills: int = (if trade.buyer_id == agent_id { 1int } else { 0 }) + (if trade.seller_id == agent_id { 1int } else { 0 });
            &&& final(state).position_of(trade.symbol@) == old(state).position_of(trade.symbol@) + bought - sold
            &&& final(state).cash_spec().0 == old(state).cash_spec().0 + trade.price.0 * (sold - bought)
            &&& final(state).fills_spec() == old(state).fills_spec() + fills
            &&& final(state).orders_spec() == old(state).orders_spec()
            &&& forall|s: Seq<char>| s != trade.symbol@ ==> #[trigger] final(state).position_of(s) == old(state).position_of(s)
        }),
{
    let value = trade.value();
    let ghost start = *state;
    if trade.buyer_id.0 == agent_id.0 {
        state.on_buy(trade.symbol.as_str(), trade.quantity.0, value);
    }
    let ghost mid = *state;
    if trade.seller_id.0 == agent_id.0 {
        state.on_sell(trade.symbol.as_str(), trade.quantity.0, value);
    }
    proof {
        assert(trade.price.0 * (0 - trade.quantity.0) == -(trade.price.0 * trade.quantity.0)) by (nonlinear_arith);
        assert(trade.price.0 * (trade.quantity.0 - trade.quantity.0) == 0) by (nonlinear_arith);
        assert(trade.price.0 * (trade.quantity.0 - 0) == trade.price.0 * trade.quantity.0) by (nonlinear_arith);
        assert(trade.price.0 * (0 - 0int) == 0) by (nonlinear_arith);
    }
}

/// Whether an agent at `position` may still buy and still sell `size`
/// shares within its limits: buying while below the long limit less the
/// size, selling while above minus the short limit plus the size.
pub fn side_permissions(position: i64, max_long: i64, max_short: i64, size: u64) -> (r: (bool, bool))
    requires
        i64::MIN <= max_long - (size as i64) <= i64::MAX,
        i64::MIN <= -max_short + (size as i64) <= i64::MAX,
        max_short > i64::MIN,
    ensures
        r.0 == (position < max_long - (size as i64)),
        r.1 == (position > -max_short + (size as i64)),
{
    let s = size as i64;
    (position < max_long - s, position > -max_short + s)
}

/// The side of a random order: either allowed side, the coin deciding
/// (selling on heads) when both are; none when neither is.
pub fn choose_side(can_buy: bool, can_sell: bool, heads: bool) -> (r: Option<OrderSide>)
    ensures
        r == (if can_buy && can_sell {
            Some(if heads { OrderSide::Sell } else { OrderSide::Buy })
        } else if can_buy {
            Some(OrderSide::Buy)
        } else if can_sell {
            Some(OrderSide::Sell)
        } else {
            None
        }),
{
    match (can_buy, can_sell) {
        (true, true) => {
            if heads {
                Some(OrderSide::Sell)
            } else {
                Some(OrderSide::Buy)
            }
        },
        (true, false) => Some(OrderSide::Buy),
        (false, true) => Some(OrderSide::Sell),
        (false, false) => None,
    }
}

/// The range of a random order's size: from `min_quantity` up to the
/// largest size the position allows (a sell at most the position taken as
/// unsigned, a buy at most the room below the long limit), each capped at
/// `max_quantity`. None when that largest size is under the minimum.
pub fn order_size_range(side: OrderSide, position: i64, max_long: i64, min_quantity: u64, max_quantity: u64) -> (r: Option<(u64, u64)>)
    requires
        side == OrderSide::Buy ==> i64::MIN <= max_long - position <= i64::MAX,
    ensures
        ({
            let cap: int = match side {
                OrderSide::Sell => (position as u64) as int,
                OrderSide::Buy => if max_long - position > 0 { max_long - position } else { 0 },
            };
            let largest: int = if cap <= max_quantity { cap } else { max_quantity as int };
            r == (if largest < min_quantity { None } else { Some((min_quantity, largest as u64)) })
        }),
{
    let cap: u64 = match side {
        OrderSide::Sell => position as u64,
        OrderSide::Buy => {
            let room = max_long - position;
            if room > 0 {
                room as u64
            } else {
                0
            }
        },
    };
    let largest = if cap <= max_quantity { cap } else { max_quantity };
    if largest < min_quantity {
        None
    } else {
        Some((min_quantity, largest))
    }
}

/// An inventory clamped to `[-max_inventory, max_inventory]`.
pub fn clamp_inventory(position: i64, max_inventory: i64) -> (r: i64)
    requires
        max_inventory >= 0,
    ensures
        r == (if position < -max_inventory { -max_inventory } else if position > max_inventory { max_inventory as int } else { position as int }),
{
    if position < -max_inventory {
        -max_inventory
    } else if position > max_inventory {
        max_inventory
    } else {
        position
    }
}

/// Whether a periodic action is due: always at tick 0, otherwise once
/// `interval` ticks have passed since `last_tick`.
pub fn periodic_due(current_tick: u64, last_tick: u64, interval: u64) -> (b: bool)
    requires
        current_tick != 0 ==> last_tick + interval <= u64::MAX,
    ensures
        b == (current_tick == 0 || current_tick >= last_tick + interval),
{
    current_tick == 0 || current_tick >= last_tick + interval
}

/// The action of a quote refresh: the new quotes, cancelling the
/// outstanding bid and ask (in that order) when there are any.
pub fn refresh_action(orders: Vec<Order>, outstanding_bid: Option<OrderId>, outstanding_ask: Option<OrderId>) -> (a: AgentAction)
    ensures
        a.orders@ == orders@,
        a.cancellations@ == (match outstanding_bid {
            Some(b) => seq![b],
            None => Seq::<OrderId>::empty(),
        }) + (match outstanding_ask {
            Some(k) => seq![k],
            None => Seq::<OrderId>::empty(),
        }),
{
    let mut cancellations: Vec<OrderId> = Vec::new();
    match outstanding_bid {
        Some(b) => cancellations.push(b),
        None => {},
    }
    match outstanding_ask {
        Some(k) => cancellations.push(k),
        None => {},
    }
    proof {
        assert(cancellations@ =~= (match outstanding_bid {
            Some(b) => seq![b],
            None => Seq::<OrderId>::empty(),
        }) + (match outstanding_ask {
            Some(k) => seq![k],
            None => Seq::<OrderId>::empty(),
        }));
    }
    if cancellations.len() == 0 {
        AgentAction::multiple(orders)
    } else {
        AgentAction::cancel_and_replace(cancellations, orders)
    }
}

/// Where a fast line stood against a slow one when last observed.
#[derive(Debug, Clone, Copy, PartialEq, Eq, Structural)]
pub enum Crossing {
    /// Not enough data yet.
    Unknown,
    /// The fast line above the slow one.
    Above,
    /// The fast line at or below the slow one.
    Below,
}

/// The side a crossover strategy trades when its lines move from `prev`
/// to `current`.
pub open spec fn crossover_side(prev: Crossing, current: Crossing, position: int, max_position: int) -> Option<OrderSide> {
    if prev == Crossing::Below && current == Crossing::Above && position < max_position {
        Some(OrderSide::Buy)
    } else if prev == Crossing::Above && current == Crossing::Below && position > -max_position {
        Some(OrderSide::Sell)
    } else {
        None
    }
}

/// The signal of a crossover strategy: a buy when the fast line crosses
/// above the slow one while the position is under `max_position`, a sell
/// when it crosses below while the position is above `-max_position`,
/// nothing otherwise.
pub fn crossover_signal(prev: Crossing, current: Crossing, position: i64, max_position: i64) -> (r: Option<OrderSide>)
    requires
        max_position > i64::MIN,
    ensures
        r == crossover_side(prev, current, position as int, max_position as int),
{
    match (prev, current) {
        (Crossing::Below, Crossing::Above) => {
            if position < max_position {
                Some(OrderSide::Buy)
            } else {
                None
            }
        },
        (Crossing::Above, Crossing::Below) => {
            if position > -max_position {
                Some(OrderSide::Sell)
            } else {
                None
            }
        },
        _ => None,
    }
}

/// A crossover strategy never signals twice for one crossing: once the
/// state it remembers equals what it observes, it stays silent, and it
/// never signals from an unknown state.
pub proof fn lemma_signals_only_on_crossings(prev: Crossing, current: Crossing, position: int, max_position: int)
    ensures
        crossover_side(current, current, position, max_position) is None,
        crossover_side(Crossing::Unknown, current, position, max_position) is None,
        crossover_side(prev, current, position, max_position) is Some ==> prev != current,
{
}

/// Progress of a sliced execution toward a target quantity.
#[derive(Debug, Clone, Copy, PartialEq, Eq, Structural)]
pub struct SliceSchedule {
    /// Shares still to execute.
    pub remaining: u64,
    /// Largest slice per order.
    pub max_slice: u64,
    /// Ticks between slices.
    pub interval: u64,
    /// Tick of the last slice.
    pub last_order_tick: u64,
}

impl SliceSchedule {
    /// A schedule for `target` shares.
    pub fn new(target: u64, max_slice: u64, interval: u64) -> (s: SliceSchedule)
        ensures
            s == (SliceSchedule { remaining: target, max_slice, interval, last_order_tick: 0 }),
    {
        SliceSchedule { remaining: target, max_slice, interval, last_order_tick: 0 }
    }

    /// Whether everything has been executed.
    pub fn is_complete(&self) -> (b: bool)
        ensures
            b == (self.remaining == 0),
    {
        self.remaining == 0
    }

    /// The next slice: what remains, up to the maximum slice.
    pub fn slice_size(&self) -> (q: u64)
        ensures
            q == (if self.remaining <= self.max_slice { self.remaining } else { self.max_slice }),
    {
        if self.remaining <= self.max_slice {
            self.remaining
        } else {
            self.max_slice
        }
    }

    /// Whether a slice may be placed at `tick`.
    pub fn can_place_order(&self, tick: u64) -> (b: bool)
        requires
            tick != 0 ==> self.last_order_tick + self.interval <= u64::MAX,
        ensures
            b == (tick == 0 || tick >= self.last_order_tick + self.interval),
    {
        periodic_due(tick, self.last_order_tick, self.interval)
    }

    /// Record a slice placed at `tick`.
    pub fn record_order(&mut self, tick: u64)
        ensures
            *final(self) == (SliceSchedule { last_order_tick: tick, ..*old(self) }),
    {
        self.last_order_tick = tick;
    }

    /// Record a fill of `filled` shares; what remains never goes below zero.
    pub fn record_fill(&mut self, filled: u64)
        ensures
            *final(self) == (SliceSchedule {
                remaining: if old(self).remaining >= filled { (old(self).remaining - filled) as u64 } else { 0 },
                ..*old(self)
            }),
    {
        self.remaining = if self.remaining >= filled {
            self.remaining - filled
        } else {
            0
        };
    }
}

/// An order allowed by `side_permissions` keeps the position within the
/// limits: a buy of at most `size` shares stays below the long limit, a
/// sell of at most `size` stays above minus the short limit.
pub proof fn lemma_permitted_orders_stay_within_limits(position: int, max_long: int, max_short: int, size: int, q: int)
    requires
        0 <= q <= size,
    ensures
        position < max_long - size ==> position + q < max_long,
        position > -max_short + size ==> position - q > -max_short,
{
}

} // verus!
