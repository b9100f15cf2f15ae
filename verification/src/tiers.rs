//! Types shared by the tiered agents: wake conditions, price references,
//! deferred condition updates and an ordered price key.
use vstd::prelude::*;

use crate::lists::SymbolList;
use crate::market::{AgentId, Price, Symbol, Tick};

verus! {

/// Whether an agent running every `n` ticks runs at `tick` (ticks 0, n, 2n, ...).
/// With `n == 0` only tick 0 qualifies.
pub fn every_n_due(tick: Tick, n: u64) -> (b: bool)
    ensures
        b == (if n == 0 { tick == 0 } else { tick % n == 0 }),
{
    if n == 0 {
        tick == 0
    } else {
        tick % n == 0
    }
}

/// When a polled agent runs, for the schedules that draw no random number:
/// every tick, or every `n` ticks (ticks 0, n, 2n, ...).
#[derive(Debug, Clone, Copy, PartialEq, Eq, Structural)]
pub enum FixedFrequency {
    /// Every tick.
    EveryTick,
    /// Ticks 0, n, 2n, ... (only tick 0 when n is 0).
    EveryN(u64),
}

impl FixedFrequency {
    /// Whether the agent runs at `tick`.
    pub fn should_run(&self, tick: Tick) -> (b: bool)
        ensures
            b == match *self {
                FixedFrequency::EveryTick => true,
                FixedFrequency::EveryN(n) => if n == 0 { tick == 0 } else { tick % n == 0 },
            },
    {
        match self {
            FixedFrequency::EveryTick => true,
            FixedFrequency::EveryN(n) => every_n_due(tick, *n),
        }
    }
}

/// Direction for price threshold crossings.
#[derive(Debug, Clone, Copy, PartialEq, Eq, Hash, Structural)]
pub enum CrossDirection {
    /// Price rises to or above the threshold.
    Above,
    /// Price falls to or below the threshold.
    Below,
}

/// Conditions that wake a reactive agent.
#[derive(Debug, Clone, PartialEq)]
pub enum WakeCondition {
    /// Price reaches a threshold from the given side.
    PriceCross { symbol: Symbol, threshold: Price, direction: CrossDirection },
    /// Wake once at a specific tick.
    TimeExact { wake_tick: Tick },
    /// Wake periodically every `interval` ticks, next at `next_wake`.
    TimeInterval { next_wake: Tick, interval: u64 },
    /// Wake on news about any of the symbols.
    NewsEvent { symbols: SymbolList },
}

/// Mathematical value of a wake condition.
pub enum CondView {
    PriceCross { symbol: Seq<char>, threshold: i64, direction: CrossDirection },
    TimeExact { wake_tick: u64 },
    TimeInterval { next_wake: u64, interval: u64 },
    NewsEvent { symbols: Seq<Seq<char>> },
}

/// Views of a sequence of symbols.
pub open spec fn symbol_views(s: Seq<Symbol>) -> Seq<Seq<char>> {
    s.map_values(|x: Symbol| x@)
}

impl View for WakeCondition {
    type V = CondView;

    open spec fn view(&self) -> CondView {
        match self {
            WakeCondition::PriceCross { symbol, threshold, direction } => CondView::PriceCross {
                symbol: symbol@,
                threshold: threshold.0,
                direction: *direction,
            },
            WakeCondition::TimeExact { wake_tick } => CondView::TimeExact { wake_tick: *wake_tick },
            WakeCondition::TimeInterval { next_wake, interval } => CondView::TimeInterval {
                next_wake: *next_wake,
                interval: *interval,
            },
            WakeCondition::NewsEvent { symbols } => CondView::NewsEvent { symbols: symbols@ },
        }
    }
}

/// Copy a vector of symbols.
pub fn copy_symbols(v: &Vec<Symbol>) -> (c: Vec<Symbol>)
    ensures
        symbol_views(c@) == symbol_views(v@),
{
    let mut out: Vec<Symbol> = Vec::new();
    let mut i: usize = 0;
    while i < v.len()
        invariant
            i <= v@.len(),
            out@.len() == i,
            forall|j: int| 0 <= j < i ==> #[trigger] out@[j]@ == v@[j]@,
        decreases v@.len() - i,
    {
        out.push(v[i].clone());
        i += 1;
    }
    assert(symbol_views(out@) =~= symbol_views(v@));
    out
}

/// Whether two symbol lists hold equal symbols in the same order.
pub fn same_symbols(a: &SymbolList, b: &SymbolList) -> (r: bool)
    ensures
        r == (a@ == b@),
{
    let n = a.len();
    if n != b.len() {
        return false;
    }
    let mut i: usize = 0;
    while i < n
        invariant
            n == a@.len(),
            a@.len() == b@.len(),
            i <= n,
            forall|j: int| 0 <= j < i ==> a@[j] == b@[j],
        decreases n - i,
    {
        if *a.get(i) != *b.get(i) {
            return false;
        }
        i += 1;
    }
    assert(a@ =~= b@);
    true
}

impl WakeCondition {
    /// An exact copy.
    pub fn duplicate(&self) -> (c: WakeCondition)
        ensures
            c@ == self@,
    {
        match self {
            WakeCondition::PriceCross { symbol, threshold, direction } => WakeCondition::PriceCross {
                symbol: symbol.clone(),
                threshold: *threshold,
                direction: *direction,
            },
            WakeCondition::TimeExact { wake_tick } => WakeCondition::TimeExact { wake_tick: *wake_tick },
            WakeCondition::TimeInterval { next_wake, interval } => WakeCondition::TimeInterval {
                next_wake: *next_wake,
                interval: *interval,
            },
            WakeCondition::NewsEvent { symbols } => WakeCondition::NewsEvent { symbols: SymbolList::from_vec(symbols.to_vec()) },
        }
    }

    /// Whether two conditions are equal.
    pub fn same_as(&self, other: &WakeCondition) -> (b: bool)
        ensures
            b == (self@ == other@),
    {
        match (self, other) {
            (
                WakeCondition::PriceCross { symbol: s1, threshold: t1, direction: d1 },
                WakeCondition::PriceCross { symbol: s2, threshold: t2, direction: d2 },
            ) => *s1 == *s2 && t1.0 == t2.0 && *d1 == *d2,
            (WakeCondition::TimeExact { wake_tick: a }, WakeCondition::TimeExact { wake_tick: b }) => *a == *b,
            (
                WakeCondition::TimeInterval { next_wake: n1, interval: i1 },
                WakeCondition::TimeInterval { next_wake: n2, interval: i2 },
            ) => *n1 == *n2 && *i1 == *i2,
            (WakeCondition::NewsEvent { symbols: a }, WakeCondition::NewsEvent { symbols: b }) => same_symbols(a, b),
            _ => false,
        }
    }

    /// A price cross condition for buying dips.
    pub fn price_below(symbol: Symbol, threshold: Price) -> (c: WakeCondition)
        ensures
            c@ == (CondView::PriceCross { symbol: symbol@, threshold: threshold.0, direction: CrossDirection::Below }),
    {
        WakeCondition::PriceCross { symbol, threshold, direction: CrossDirection::Below }
    }

    /// A price cross condition for selling rallies.
    pub fn price_above(symbol: Symbol, threshold: Price) -> (c: WakeCondition)
        ensures
            c@ == (CondView::PriceCross { symbol: symbol@, threshold: threshold.0, direction: CrossDirection::Above }),
    {
        WakeCondition::PriceCross { symbol, threshold, direction: CrossDirection::Above }
    }

    /// A one-time wake at a specific tick.
    pub fn at_tick(tick: Tick) -> (c: WakeCondition)
        ensures
            c@ == (CondView::TimeExact { wake_tick: tick }),
    {
        WakeCondition::TimeExact { wake_tick: tick }
    }

    /// A periodic wake condition.
    pub fn every_n_ticks(interval: u64, starting_at: Tick) -> (c: WakeCondition)
        ensures
            c@ == (CondView::TimeInterval { next_wake: starting_at, interval }),
    {
        WakeCondition::TimeInterval { next_wake: starting_at, interval }
    }

    /// A news subscription for specific symbols.
    pub fn on_news(symbols: Vec<Symbol>) -> (c: WakeCondition)
        ensures
            c@ == (CondView::NewsEvent { symbols: symbol_views(symbols@) }),
    {
        WakeCondition::NewsEvent { symbols: SymbolList::from_vec(symbols) }
    }

    /// Whether this is a price cross condition.
    pub fn is_price_cross(&self) -> (b: bool)
        ensures
            b == (self@ is PriceCross),
    {
        match self {
            WakeCondition::PriceCross { .. } => true,
            _ => false,
        }
    }
}

/// Reference point for percentage-based price calculations.
#[derive(Debug, Clone, Copy, PartialEq, Eq, Structural)]
pub enum PriceReference {
    /// Agent's cost basis.
    CostBasis,
    /// Session open price.
    OpenPrice,
    /// Highest price since position entry.
    HighWaterMark,
    /// Lowest price since position entry.
    LowWaterMark,
    /// Fundamental value (computed externally).
    FundamentalValue,
    /// Fixed price snapshot taken at registration.
    Snapshot(Price),
}

/// Deferred wake condition mutation, applied after all agents have run.
#[derive(Debug, Clone)]
pub struct ConditionUpdate {
    /// Agent requesting the update.
    pub agent_id: AgentId,
    /// Conditions to remove from the index.
    pub remove: Vec<WakeCondition>,
    /// Conditions to add to the index.
    pub add: Vec<WakeCondition>,
}

/// Views of a sequence of conditions.
pub open spec fn cond_views(s: Seq<WakeCondition>) -> Seq<CondView> {
    s.map_values(|c: WakeCondition| c@)
}

impl ConditionUpdate {
    /// An empty update for an agent.
    pub fn new(agent_id: AgentId) -> (u: ConditionUpdate)
        ensures
            u.agent_id == agent_id,
            u.remove@.len() == 0,
            u.add@.len() == 0,
    {
        ConditionUpdate { agent_id, remove: Vec::new(), add: Vec::new() }
    }

    /// The same update with one more condition to remove.
    pub fn remove_condition(self, condition: WakeCondition) -> (u: ConditionUpdate)
        ensures
            u.agent_id == self.agent_id,
            u.remove@ == self.remove@.push(condition),
            u.add@ == self.add@,
    {
        let mut u = self;
        u.remove.push(condition);
        u
    }

    /// The same update with one more condition to add.
    pub fn add_condition(self, condition: WakeCondition) -> (u: ConditionUpdate)
        ensures
            u.agent_id == self.agent_id,
            u.add@ == self.add@.push(condition),
            u.remove@ == self.remove@,
    {
        let mut u = self;
        u.add.push(condition);
        u
    }

    /// Whether the update changes nothing.
    pub fn is_empty(&self) -> (b: bool)
        ensures
            b == (self.remove@.len() == 0 && self.add@.len() == 0),
    {
        self.remove.len() == 0 && self.add.len() == 0
    }
}

/// A price usable as an ordered index key.
#[derive(Debug, Clone, Copy, PartialEq, Eq, PartialOrd, Ord, Hash, Structural)]
pub struct OrderedPrice(pub i64);

impl OrderedPrice {
    /// From a price.
    pub fn from_price(price: Price) -> (o: OrderedPrice)
        ensures
            o.0 == price.0,
    {
        OrderedPrice(price.0)
    }

    /// Back to a price.
    pub fn to_price(self) -> (p: Price)
        ensures
            p.0 == self.0,
    {
        Price(self.0)
    }
}

impl From<Price> for OrderedPrice {
    fn from(price: Price) -> (o: OrderedPrice) {
        OrderedPrice(price.0)
    }
}

impl vstd::std_specs::convert::FromSpecImpl<Price> for OrderedPrice {
    open spec fn obeys_from_spec() -> bool {
        true
    }

    open spec fn from_spec(v: Price) -> OrderedPrice {
        OrderedPrice(v.0)
    }
}

impl From<OrderedPrice> for Price {
    fn from(ordered: OrderedPrice) -> (p: Price) {
        Price(ordered.0)
    }
}

impl vstd::std_specs::convert::FromSpecImpl<OrderedPrice> for Price {
    open spec fn obeys_from_spec() -> bool {
        true
    }

    open spec fn from_spec(v: OrderedPrice) -> Price {
        Price(v.0)
    }
}

} // verus!
