//! Reactive (wake-on-condition) agents: portfolio scope, strategy kinds and
//! their validation, the minimal wake context, agent actions, and the
//! agent itself with its position tracking and trading decisions.
//!
//! The size fractions, percentage exits and news sentiment of the strategies
//! are floating-point parameters; what they yield for the current state (a
//! share count, a trigger price, a signed news reaction) reaches the agent as
//! [`StrategyNumbers`], and every decision taken from there is made here.
use vstd::prelude::*;

use crate::accounting::trunc_div;
use crate::lists::StrategyList;
use crate::market::{AgentId, Cash, Order, OrderId, OrderSide, OrderStatus, OrderType, Price, Quantity, Symbol, Tick, Trade};
use crate::state::AgentState;
use crate::tiers::{cond_views, CondView, ConditionUpdate, CrossDirection, PriceReference, WakeCondition};

verus! {

// ---------------------------------------------------------------------------
// Portfolio scope
// ---------------------------------------------------------------------------

/// The symbols a reactive agent monitors and trades.
#[derive(Debug, Clone)]
pub enum ReactivePortfolio {
    /// The agent trades a single symbol.
    SingleSymbol(Symbol),
}

impl ReactivePortfolio {
    /// The symbol the agent trades first.
    pub open spec fn primary(self) -> Seq<char> {
        match self {
            ReactivePortfolio::SingleSymbol(s) => s@,
        }
    }

    /// A single-symbol portfolio.
    pub fn single(symbol: &str) -> (p: ReactivePortfolio)
        ensures
            p.primary() == symbol@,
    {
        ReactivePortfolio::SingleSymbol(symbol.to_owned())
    }

    /// The primary symbol.
    pub fn primary_symbol(&self) -> (s: &Symbol)
        ensures
            s@ == self.primary(),
    {
        match self {
            ReactivePortfolio::SingleSymbol(s) => s,
        }
    }

    /// All symbols in the portfolio.
    pub fn symbols(&self) -> (v: Vec<&Symbol>)
        ensures
            v@.len() == 1,
            v@[0]@ == self.primary(),
    {
        match self {
            ReactivePortfolio::SingleSymbol(s) => {
                let mut v: Vec<&Symbol> = Vec::new();
                v.push(s);
                v
            },
        }
    }

    /// Whether the portfolio includes `symbol`.
    pub fn contains(&self, symbol: &Symbol) -> (b: bool)
        ensures
            b == (symbol@ == self.primary()),
    {
        match self {
            ReactivePortfolio::SingleSymbol(s) => *s == *symbol,
        }
    }
}

impl PartialEq for ReactivePortfolio {
    fn eq(&self, other: &ReactivePortfolio) -> (b: bool) {
        match (self, other) {
            (ReactivePortfolio::SingleSymbol(a), ReactivePortfolio::SingleSymbol(b)) => *a == *b,
        }
    }
}

impl vstd::std_specs::cmp::PartialEqSpecImpl for ReactivePortfolio {
    open spec fn obeys_eq_spec() -> bool {
        true
    }

    open spec fn eq_spec(&self, other: &ReactivePortfolio) -> bool {
        self.primary() == other.primary()
    }
}

impl From<Symbol> for ReactivePortfolio {
    fn from(symbol: Symbol) -> (p: ReactivePortfolio) {
        ReactivePortfolio::SingleSymbol(symbol)
    }
}

impl vstd::std_specs::convert::FromSpecImpl<Symbol> for ReactivePortfolio {
    open spec fn obeys_from_spec() -> bool {
        true
    }

    open spec fn from_spec(v: Symbol) -> ReactivePortfolio {
        ReactivePortfolio::SingleSymbol(v)
    }
}

// ---------------------------------------------------------------------------
// Strategy kinds and validation
// ---------------------------------------------------------------------------

/// The kind of a reactive strategy, with its absolute price where it has one.
#[derive(Debug, Clone, Copy, PartialEq, Eq, Structural)]
pub enum StrategyKind {
    /// Buy when the price drops to or below `buy_price`.
    ThresholdBuyer { buy_price: Price },
    /// Exit when the price drops a percentage below the cost basis.
    StopLoss,
    /// Exit when the price rises a percentage above the cost basis.
    TakeProfit,
    /// Exit when the price rises to or above `sell_price`.
    ThresholdSeller { sell_price: Price },
    /// Trade in the direction of news sentiment (entry or exit).
    NewsReactor,
}

impl StrategyKind {
    /// Whether the strategy can open positions.
    pub open spec fn opens(self) -> bool {
        self is ThresholdBuyer || self is NewsReactor
    }

    /// Whether the strategy can close positions.
    pub open spec fn closes(self) -> bool {
        self is StopLoss || self is TakeProfit || self is ThresholdSeller || self is NewsReactor
    }

    /// Whether this is an entry strategy (can open positions).
    pub fn is_entry(&self) -> (b: bool)
        ensures
            b == self.opens(),
    {
        match self {
            StrategyKind::ThresholdBuyer { .. } | StrategyKind::NewsReactor => true,
            _ => false,
        }
    }

    /// Whether this is an exit strategy (can close positions).
    pub fn is_exit(&self) -> (b: bool)
        ensures
            b == self.closes(),
    {
        match self {
            StrategyKind::ThresholdBuyer { .. } => false,
            _ => true,
        }
    }

    /// Whether the strategy tracks a high water mark (none of the active kinds does).
    pub fn needs_high_water_mark(&self) -> (b: bool)
        ensures
            !b,
    {
        false
    }

    /// Whether the strategy is time-based (none of the active kinds is).
    pub fn is_time_based(&self) -> (b: bool)
        ensures
            !b,
    {
        false
    }

    /// The price reference the strategy measures from (none of the active kinds has one).
    pub fn price_reference(&self) -> (r: Option<PriceReference>)
        ensures
            r is None,
    {
        None
    }

    /// The absolute entry price of a threshold buyer.
    pub fn entry_price(&self) -> (r: Option<Price>)
        ensures
            r == (match *self {
                StrategyKind::ThresholdBuyer { buy_price } => Some(buy_price),
                _ => None,
            }),
    {
        match self {
            StrategyKind::ThresholdBuyer { buy_price } => Some(*buy_price),
            _ => None,
        }
    }

    /// The absolute exit price of a threshold seller.
    pub fn exit_price(&self) -> (r: Option<Price>)
        ensures
            r == (match *self {
                StrategyKind::ThresholdSeller { sell_price } => Some(sell_price),
                _ => None,
            }),
    {
        match self {
            StrategyKind::ThresholdSeller { sell_price } => Some(*sell_price),
            _ => None,
        }
    }
}

/// Verdict on a set of strategies.
#[derive(Debug, Clone, Copy, PartialEq, Eq, Structural)]
pub enum StrategyValidation {
    /// The set can both enter and exit.
    Valid,
    /// No entry strategy: the agent could never open a position.
    MissingEntry,
    /// No exit strategy: the agent could never close a position.
    MissingExit,
}

/// Whether some strategy of `s` can open positions.
pub open spec fn has_entry(s: Seq<StrategyKind>) -> bool {
    exists|i: int| 0 <= i < s.len() && #[trigger] s[i].opens()
}

/// Whether some strategy of `s` can close positions.
pub open spec fn has_exit(s: Seq<StrategyKind>) -> bool {
    exists|i: int| 0 <= i < s.len() && #[trigger] s[i].closes()
}

/// The verdict on a set of strategies: a missing entry is reported first.
pub open spec fn validation_of(s: Seq<StrategyKind>) -> StrategyValidation {
    if !has_entry(s) {
        StrategyValidation::MissingEntry
    } else if !has_exit(s) {
        StrategyValidation::MissingExit
    } else {
        StrategyValidation::Valid
    }
}

/// Check that a set of strategies can both open and close positions.
pub fn validate_strategies(strategies: &[StrategyKind]) -> (v: StrategyValidation)
    ensures
        v == validation_of(strategies@),
{
    let mut entry = false;
    let mut exit = false;
    let mut i: usize = 0;
    while i < strategies.len()
        invariant
            i <= strategies@.len(),
            entry == exists|j: int| 0 <= j < i && #[trigger] strategies@[j].opens(),
            exit == exists|j: int| 0 <= j < i && #[trigger] strategies@[j].closes(),
        decreases strategies@.len() - i,
    {
        let e = strategies[i].is_entry();
        let x = strategies[i].is_exit();
        entry = entry || e;
        exit = exit || x;
        i += 1;
    }
    if !entry {
        StrategyValidation::MissingEntry
    } else if !exit {
        StrategyValidation::MissingExit
    } else {
        StrategyValidation::Valid
    }
}

// ---------------------------------------------------------------------------
// Agent actions
// ---------------------------------------------------------------------------

/// What an agent does on one tick: orders to submit and orders to cancel.
#[derive(Debug, Clone)]
pub struct AgentAction {
    /// Orders to submit.
    pub orders: Vec<Order>,
    /// Ids of orders to cancel.
    pub cancellations: Vec<OrderId>,
}

impl AgentAction {
    /// No orders and no cancellations.
    pub fn none() -> (a: AgentAction)
        ensures
            a.orders@.len() == 0,
            a.cancellations@.len() == 0,
    {
        AgentAction { orders: Vec::new(), cancellations: Vec::new() }
    }

    /// One order.
    pub fn single(order: Order) -> (a: AgentAction)
        ensures
            a.orders@ == seq![order],
            a.cancellations@.len() == 0,
    {
        let mut orders: Vec<Order> = Vec::new();
        orders.push(order);
        AgentAction { orders, cancellations: Vec::new() }
    }

    /// Several orders.
    pub fn multiple(orders: Vec<Order>) -> (a: AgentAction)
        ensures
            a.orders@ == orders@,
            a.cancellations@.len() == 0,
    {
        AgentAction { orders, cancellations: Vec::new() }
    }

    /// Cancel some orders and place new ones.
    pub fn cancel_and_replace(cancellations: Vec<OrderId>, orders: Vec<Order>) -> (a: AgentAction)
        ensures
            a.orders@ == orders@,
            a.cancellations@ == cancellations@,
    {
        AgentAction { orders, cancellations }
    }
}

impl Default for AgentAction {
    fn default() -> (a: AgentAction)
        ensures
            a.orders@.len() == 0,
            a.cancellations@.len() == 0,
    {
        AgentAction::none()
    }
}

/// `o` is a fresh market order of `agent` for `quantity` shares of `symbol` on `side`.
pub open spec fn is_market_order(o: Order, agent: AgentId, symbol: Seq<char>, side: OrderSide, quantity: u64) -> bool {
    &&& o.id == OrderId(0)
    &&& o.agent_id == agent
    &&& o.symbol@ == symbol
    &&& o.side == side
    &&& o.order_type == OrderType::Market
    &&& o.quantity == Quantity(quantity)
    &&& o.remaining_quantity == Quantity(quantity)
    &&& o.timestamp == 0
    &&& o.latency_ticks == 0
    &&& o.status == OrderStatus::Pending
}

/// `a` places exactly one market order as described, and cancels nothing.
pub open spec fn is_market_action(a: AgentAction, agent: AgentId, symbol: Seq<char>, side: OrderSide, quantity: u64) -> bool {
    &&& a.orders@.len() == 1
    &&& is_market_order(a.orders@[0], agent, symbol, side, quantity)
    &&& a.cancellations@.len() == 0
}

// ---------------------------------------------------------------------------
// Wake context
// ---------------------------------------------------------------------------

/// Prices of a symbol at one moment.
#[derive(Debug, Clone, Copy, PartialEq, Eq, Structural)]
pub struct PriceSnapshot {
    /// Last traded price.
    pub last: Price,
    /// Best bid.
    pub bid: Price,
    /// Best ask.
    pub ask: Price,
    /// Session open.
    pub open: Price,
    /// Session high.
    pub high: Price,
    /// Session low.
    pub low: Price,
}

impl PriceSnapshot {
    /// A snapshot from its six prices.
    pub fn new(last: Price, bid: Price, ask: Price, open: Price, high: Price, low: Price) -> (s: PriceSnapshot)
        ensures
            s == (PriceSnapshot { last, bid, ask, open, high, low }),
    {
        PriceSnapshot { last, bid, ask, open, high, low }
    }

    /// Mid price: the average of bid and ask, truncated toward zero.
    pub fn mid(&self) -> (p: Price)
        requires
            i64::MIN <= self.bid.0 + self.ask.0 <= i64::MAX,
        ensures
            p.0 == crate::accounting::trunc_div(self.bid.0 + self.ask.0, 2),
    {
        Price(crate::accounting::truncating_div(self.bid.0 + self.ask.0, 2))
    }

    /// Spread: ask minus bid.
    pub fn spread(&self) -> (p: Price)
        requires
            i64::MIN <= self.ask.0 - self.bid.0 <= i64::MAX,
        ensures
            p.0 == self.ask.0 - self.bid.0,
    {
        Price(self.ask.0 - self.bid.0)
    }

    /// Session range: high minus low.
    pub fn range(&self) -> (p: Price)
        requires
            i64::MIN <= self.high.0 - self.low.0 <= i64::MAX,
        ensures
            p.0 == self.high.0 - self.low.0,
    {
        Price(self.high.0 - self.low.0)
    }
}

impl Default for PriceSnapshot {
    fn default() -> (s: PriceSnapshot)
        ensures
            s == (PriceSnapshot { last: Price(0), bid: Price(0), ask: Price(0), open: Price(0), high: Price(0), low: Price(0) }),
    {
        PriceSnapshot { last: Price(0), bid: Price(0), ask: Price(0), open: Price(0), high: Price(0), low: Price(0) }
    }
}

/// The first entry of `s` whose symbol is `symbol`, as an index.
pub open spec fn first_match<T>(s: Seq<(Symbol, T)>, symbol: Seq<char>) -> Option<int> {
    if exists|i: int| 0 <= i < s.len() && #[trigger] s[i].0@ == symbol {
        Some(choose|i: int| 0 <= i < s.len() && #[trigger] s[i].0@ == symbol
            && forall|j: int| 0 <= j < i ==> s[j].0@ != symbol)
    } else {
        None
    }
}

/// Find the first entry of a list of (symbol, value) pairs whose symbol is `symbol`.
fn find_symbol<T>(s: &[(Symbol, T)], symbol: &Symbol) -> (r: Option<usize>)
    ensures
        match r {
            Some(i) => i < s@.len() && s@[i as int].0@ == symbol@
                && forall|j: int| 0 <= j < i ==> s@[j].0@ != symbol@,
            None => forall|j: int| 0 <= j < s@.len() ==> s@[j].0@ != symbol@,
        },
        r == (match first_match(s@, symbol@) {
            Some(i) => Some(i as usize),
            None => None::<usize>,
        }),
{
    let mut i: usize = 0;
    while i < s.len()
        invariant
            i <= s@.len(),
            forall|j: int| 0 <= j < i ==> s@[j].0@ != symbol@,
        decreases s@.len() - i,
    {
        if s[i].0 == *symbol {
            proof {
                let k = choose|k: int| 0 <= k < s@.len() && #[trigger] s@[k].0@ == symbol@
                    && forall|j: int| 0 <= j < k ==> s@[j].0@ != symbol@;
                assert(s@[i as int].0@ == symbol@);
                if k < i {
                    assert(s@[k].0@ != symbol@);
                }
                if k > i {
                    assert(s@[i as int].0@ != symbol@);
                }
            }
            return Some(i);
        }
        i += 1;
    }
    None
}

/// The minimal context a reactive agent sees when it wakes.
#[derive(Debug, Clone)]
pub struct LightweightContext<'a> {
    /// Current tick.
    pub tick: Tick,
    /// The conditions that triggered this wake.
    pub wake_reasons: &'a [WakeCondition],
    /// Price snapshots of the relevant symbols.
    pub prices: &'a [(Symbol, PriceSnapshot)],
    /// Fundamental values by symbol, where known.
    pub fundamentals: &'a [(Symbol, Price)],
}

impl<'a> LightweightContext<'a> {
    /// The snapshot of `symbol` that `price_snapshot` returns.
    pub open spec fn snapshot_of(self, symbol: Seq<char>) -> Option<PriceSnapshot> {
        match first_match(self.prices@, symbol) {
            Some(i) => Some(self.prices@[i].1),
            None => None,
        }
    }

    /// Whether some wake reason satisfies `p`.
    pub open spec fn any_reason(self, p: spec_fn(CondView) -> bool) -> bool {
        exists|i: int| 0 <= i < self.wake_reasons@.len() && p(#[trigger] self.wake_reasons@[i]@)
    }

    /// Last price of `symbol`.
    pub fn price(&self, symbol: &Symbol) -> (r: Option<Price>)
        ensures
            r == (match self.snapshot_of(symbol@) {
                Some(snap) => Some(snap.last),
                None => None,
            }),
    {
        match find_symbol(self.prices, symbol) {
            Some(i) => Some(self.prices[i].1.last),
            None => None,
        }
    }

    /// Price snapshot of `symbol`.
    pub fn price_snapshot(&self, symbol: &Symbol) -> (r: Option<PriceSnapshot>)
        ensures
            r == self.snapshot_of(symbol@),
    {
        match find_symbol(self.prices, symbol) {
            Some(i) => Some(self.prices[i].1),
            None => None,
        }
    }

    /// Fundamental value of `symbol`.
    pub fn fundamental(&self, symbol: &Symbol) -> (r: Option<Price>)
        ensures
            r == (match first_match(self.fundamentals@, symbol@) {
                Some(i) => Some(self.fundamentals@[i].1),
                None => None,
            }),
    {
        match find_symbol(self.fundamentals, symbol) {
            Some(i) => Some(self.fundamentals[i].1),
            None => None,
        }
    }

    /// Whether a price cross triggered this wake.
    pub fn woke_on_price_cross(&self) -> (b: bool)
        ensures
            b == self.any_reason(|c: CondView| c is PriceCross),
    {
        let mut i: usize = 0;
        while i < self.wake_reasons.len()
            invariant
                i <= self.wake_reasons@.len(),
                forall|j: int| 0 <= j < i ==> !(#[trigger] self.wake_reasons@[j]@ is PriceCross),
            decreases self.wake_reasons@.len() - i,
        {
            if self.wake_reasons[i].is_price_cross() {
                return true;
            }
            i += 1;
        }
        false
    }

    /// Whether a time condition triggered this wake.
    pub fn woke_on_time(&self) -> (b: bool)
        ensures
            b == self.any_reason(|c: CondView| c is TimeExact || c is TimeInterval),
    {
        let mut i: usize = 0;
        while i < self.wake_reasons.len()
            invariant
                i <= self.wake_reasons@.len(),
                forall|j: int| 0 <= j < i ==> !(#[trigger] self.wake_reasons@[j]@ is TimeExact
                    || self.wake_reasons@[j]@ is TimeInterval),
            decreases self.wake_reasons@.len() - i,
        {
            match &self.wake_reasons[i] {
                WakeCondition::TimeExact { .. } | WakeCondition::TimeInterval { .. } => {
                    assert(self.wake_reasons@[i as int]@ is TimeExact || self.wake_reasons@[i as int]@ is TimeInterval);
                    return true;
                },
                _ => {},
            }
            i += 1;
        }
        false
    }

    /// Whether a news event triggered this wake.
    pub fn woke_on_news(&self) -> (b: bool)
        ensures
            b == self.any_reason(|c: CondView| c is NewsEvent),
    {
        let mut i: usize = 0;
        while i < self.wake_reasons.len()
            invariant
                i <= self.wake_reasons@.len(),
                forall|j: int| 0 <= j < i ==> !(#[trigger] self.wake_reasons@[j]@ is NewsEvent),
            decreases self.wake_reasons@.len() - i,
        {
            match &self.wake_reasons[i] {
                WakeCondition::NewsEvent { .. } => {
                    assert(self.wake_reasons@[i as int]@ is NewsEvent);
                    return true;
                },
                _ => {},
            }
            i += 1;
        }
        false
    }
}

// ---------------------------------------------------------------------------
// Strategy numbers
// ---------------------------------------------------------------------------

/// One news reaction: the side the sentiment points to and its raw size.
#[derive(Debug, Clone, Copy, PartialEq, Eq, Structural)]
pub struct NewsSignal {
    /// Buy on positive sentiment, sell otherwise.
    pub side: OrderSide,
    /// Shares the reaction asks for before the position guards.
    pub size: u64,
}

/// What a strategy's floating-point parameters yield for the agent's
/// current state, for the strategy at the same position.
#[derive(Debug, Clone)]
pub struct StrategyNumbers {
    /// Stop loss and take profit: the trigger price computed from the cost basis.
    pub exit_threshold: Price,
    /// Threshold buyer: the share target (maximum position times the size
    /// fraction); threshold seller: the shares to sell (position times the
    /// size fraction).
    pub fraction_size: u64,
    /// News reactor: for each news event at or above its minimum magnitude,
    /// in order, the reaction it asks for.
    pub news: Vec<NewsSignal>,
}

/// The raw values of a list of prices, in order.
pub open spec fn price_values(prices: Seq<Price>) -> Seq<i64> {
    prices.map_values(|p: Price| p.0)
}

// ---------------------------------------------------------------------------
// Sequences built strategy by strategy
// ---------------------------------------------------------------------------

/// The values `f` yields for indices `0..n`, in order, skipping `None`.
pub open spec fn collect_upto<B>(n: int, f: spec_fn(int) -> Option<B>) -> Seq<B>
    decreases n,
{
    if n <= 0 {
        Seq::empty()
    } else {
        let r = collect_upto(n - 1, f);
        match f(n - 1) {
            Some(b) => r.push(b),
            None => r,
        }
    }
}

/// A price cross downward through `threshold` on `symbol`.
pub open spec fn cross_below(symbol: Seq<char>, threshold: i64) -> CondView {
    CondView::PriceCross { symbol, threshold, direction: CrossDirection::Below }
}

/// A price cross upward through `threshold` on `symbol`.
pub open spec fn cross_above(symbol: Seq<char>, threshold: i64) -> CondView {
    CondView::PriceCross { symbol, threshold, direction: CrossDirection::Above }
}

/// The condition a strategy registers when the agent is spawned.
pub open spec fn spawn_condition(k: StrategyKind, symbol: Seq<char>) -> Option<CondView> {
    match k {
        StrategyKind::ThresholdBuyer { buy_price } => Some(cross_below(symbol, buy_price.0)),
        StrategyKind::NewsReactor => Some(CondView::NewsEvent { symbols: seq![symbol] }),
        _ => None,
    }
}

/// The exit condition a strategy registers while a position is held.
pub open spec fn exit_condition(k: StrategyKind, symbol: Seq<char>, threshold: i64) -> Option<CondView> {
    match k {
        StrategyKind::StopLoss => Some(cross_below(symbol, threshold)),
        StrategyKind::TakeProfit => Some(cross_above(symbol, threshold)),
        StrategyKind::ThresholdSeller { sell_price } => Some(cross_above(symbol, sell_price.0)),
        _ => None,
    }
}

/// The condition a strategy should have registered in the given state.
pub open spec fn active_condition(k: StrategyKind, symbol: Seq<char>, threshold: i64, flat: bool) -> Option<CondView> {
    match k {
        StrategyKind::ThresholdBuyer { buy_price } => if flat {
            Some(cross_below(symbol, buy_price.0))
        } else {
            None
        },
        StrategyKind::NewsReactor => None,
        _ => if flat {
            None
        } else {
            exit_condition(k, symbol, threshold)
        },
    }
}

// ---------------------------------------------------------------------------
// The agent
// ---------------------------------------------------------------------------

/// Mathematical value of a reactive agent.
pub struct ReactiveView {
    pub id: AgentId,
    pub symbol: Seq<char>,
    pub strategies: Seq<StrategyKind>,
    pub max_position: u64,
    /// Signed position in the symbol.
    pub position: int,
    pub cash: i64,
    pub fills_received: u64,
    pub cost_basis: i64,
    pub high_water_mark: i64,
    pub low_water_mark: i64,
    pub position_open_tick: Option<u64>,
    pub session_open_price: Option<i64>,
    pub enabled: bool,
    pub last_evaluated_tick: u64,
    /// Per strategy, the exit threshold registered when the current long
    /// position opened (empty before the first one).
    pub registered_exits: Seq<i64>,
}

/// Absolute value of a position.
pub open spec fn magnitude(x: int) -> int {
    if x >= 0 {
        x
    } else {
        -x
    }
}

impl ReactiveView {
    /// Shares that may still be bought before the maximum position is reached.
    pub open spec fn remaining(self) -> int {
        if self.max_position >= magnitude(self.position) {
            self.max_position - magnitude(self.position)
        } else {
            0
        }
    }

    /// Strategy `j`'s spawn condition.
    pub open spec fn spawn_fn(self) -> spec_fn(int) -> Option<CondView> {
        |j: int| spawn_condition(self.strategies[j], self.symbol)
    }

    /// Strategy `j`'s exit condition at its exit threshold.
    pub open spec fn exit_fn(self, numbers: Seq<StrategyNumbers>) -> spec_fn(int) -> Option<CondView> {
        |j: int| exit_condition(self.strategies[j], self.symbol, numbers[j].exit_threshold.0)
    }

    /// Strategy `j`'s condition that should be active in the current state.
    pub open spec fn active_fn(self, numbers: Seq<StrategyNumbers>) -> spec_fn(int) -> Option<CondView> {
        |j: int| active_condition(self.strategies[j], self.symbol, numbers[j].exit_threshold.0, self.position == 0)
    }

    /// The exit threshold of strategy `j` registered when the position opened.
    pub open spec fn registered_exit(self, j: int) -> i64 {
        if 0 <= j < self.registered_exits.len() {
            self.registered_exits[j]
        } else {
            0
        }
    }

    /// Strategy `j`'s exit condition at the threshold registered when the position opened.
    pub open spec fn registered_exit_fn(self) -> spec_fn(int) -> Option<CondView> {
        |j: int| exit_condition(self.strategies[j], self.symbol, self.registered_exit(j))
    }

    /// The exit conditions registered when the position opened, in strategy order.
    pub open spec fn registered_exit_conditions(self) -> Seq<CondView> {
        collect_upto(self.strategies.len() as int, self.registered_exit_fn())
    }

    /// Strategy `j`'s removal after a move from `before`: exits are removed
    /// at the thresholds they were registered with.
    pub open spec fn removal_fn(self, before: int) -> spec_fn(int) -> Option<CondView> {
        |j: int| self.removal(j, before, self.registered_exit(j))
    }

    /// Strategy `j`'s addition after a move from `before`: exits are added
    /// at the thresholds recorded when the position opened.
    pub open spec fn addition_fn(self, before: int) -> spec_fn(int) -> Option<CondView> {
        |j: int| self.addition(j, before, self.registered_exit(j))
    }

    /// The conditions registered at spawn, in strategy order.
    pub open spec fn spawn_conditions(self) -> Seq<CondView> {
        collect_upto(self.strategies.len() as int, self.spawn_fn())
    }

    /// The exit conditions of all strategies, at the given exit thresholds.
    pub open spec fn exit_conditions(self, numbers: Seq<StrategyNumbers>) -> Seq<CondView> {
        collect_upto(self.strategies.len() as int, self.exit_fn(numbers))
    }

    /// The conditions that should be active in the current state.
    pub open spec fn active_conditions(self, numbers: Seq<StrategyNumbers>) -> Seq<CondView> {
        collect_upto(self.strategies.len() as int, self.active_fn(numbers))
    }

    /// The condition strategy `j` removes when the position moves from `before` to the current one.
    pub open spec fn removal(self, j: int, before: int, threshold: i64) -> Option<CondView> {
        let had = before > 0;
        let holds = self.position > 0;
        let bought = self.position > before;
        let sold_to_flat = had && !holds;
        let at_capacity = self.remaining() == 0;
        match self.strategies[j] {
            StrategyKind::ThresholdBuyer { buy_price } => if bought && at_capacity {
                Some(cross_below(self.symbol, buy_price.0))
            } else {
                None
            },
            StrategyKind::NewsReactor => None,
            k => if sold_to_flat {
                exit_condition(k, self.symbol, threshold)
            } else {
                None
            },
        }
    }

    /// The condition strategy `j` adds when the position moves from `before` to the current one.
    pub open spec fn addition(self, j: int, before: int, threshold: i64) -> Option<CondView> {
        let had = before > 0;
        let holds = self.position > 0;
        let sold_to_flat = had && !holds;
        let at_capacity = self.remaining() == 0;
        let was_at_capacity = before >= (self.max_position as i64);
        match self.strategies[j] {
            StrategyKind::ThresholdBuyer { buy_price } => if sold_to_flat || (was_at_capacity && !at_capacity) {
                Some(cross_below(self.symbol, buy_price.0))
            } else {
                None
            },
            StrategyKind::NewsReactor => None,
            k => if !had && holds {
                exit_condition(k, self.symbol, threshold)
            } else {
                None
            },
        }
    }

    /// All removals of a position change, in strategy order.
    pub open spec fn removals(self, before: int) -> Seq<CondView> {
        collect_upto(self.strategies.len() as int, self.removal_fn(before))
    }

    /// All additions of a position change, in strategy order.
    pub open spec fn additions(self, before: int) -> Seq<CondView> {
        collect_upto(self.strategies.len() as int, self.addition_fn(before))
    }
}

/// A reactive agent trading one symbol, woken by conditions rather than polled.
#[derive(Debug)]
pub struct ReactiveAgent {
    id: AgentId,
    state: AgentState,
    portfolio: ReactivePortfolio,
    strategies: StrategyList,
    max_position: Quantity,
    cost_basis: Price,
    high_water_mark: Price,
    low_water_mark: Price,
    position_open_tick: Option<Tick>,
    session_open_price: Option<Price>,
    enabled: bool,
    last_evaluated_tick: Tick,
    registered_exits: Vec<Price>,
}

impl View for ReactiveAgent {
    type V = ReactiveView;

    closed spec fn view(&self) -> ReactiveView {
        ReactiveView {
            id: self.id,
            symbol: self.portfolio.primary(),
            strategies: self.strategies@,
            max_position: self.max_position.0,
            position: self.state.position_of(self.portfolio.primary()),
            cash: self.state.cash_spec().0,
            fills_received: self.state.fills_spec(),
            cost_basis: self.cost_basis.0,
            high_water_mark: self.high_water_mark.0,
            low_water_mark: self.low_water_mark.0,
            position_open_tick: self.position_open_tick,
            session_open_price: match self.session_open_price {
                Some(p) => Some(p.0),
                None => None,
            },
            enabled: self.enabled,
            last_evaluated_tick: self.last_evaluated_tick,
            registered_exits: price_values(self.registered_exits@),
        }
    }
}

/// Absolute value of an `i64`, as a `u64`.
fn unsigned_magnitude(x: i64) -> (r: u64)
    ensures
        r == magnitude(x as int),
{
    if x >= 0 {
        x as u64
    } else {
        let y: i64 = -(x + 1);
        (y as u64) + 1
    }
}

impl ReactiveAgent {
    /// The agent's bookkeeping state.
    pub closed spec fn state_spec(self) -> AgentState {
        self.state
    }

    /// Internal consistency.
    pub closed spec fn wf(self) -> bool {
        self.state.wf()
    }

    /// A new enabled, flat agent with `initial_cash`.
    pub fn new(
        id: AgentId,
        portfolio: ReactivePortfolio,
        strategies: Vec<StrategyKind>,
        max_position: Quantity,
        initial_cash: Cash,
    ) -> (a: ReactiveAgent)
        requires
            validation_of(strategies@) == StrategyValidation::Valid,
        ensures
            a.wf(),
            a@ == (ReactiveView {
                id,
                symbol: portfolio.primary(),
                strategies: strategies@,
                max_position: max_position.0,
                position: 0,
                cash: initial_cash.0,
                fills_received: 0,
                cost_basis: 0,
                high_water_mark: 0,
                low_water_mark: i64::MAX,
                position_open_tick: None,
                session_open_price: None,
                enabled: true,
                last_evaluated_tick: 0,
                registered_exits: Seq::empty(),
            }),
            a.state_spec().orders_spec() == 0,
            forall|s: Seq<char>| #[trigger] a.state_spec().position_map().contains_key(s) <==> s == portfolio.primary(),
    {
        let symbol = portfolio.primary_symbol().clone();
        let mut symbols: Vec<Symbol> = Vec::new();
        symbols.push(symbol);
        let state = AgentState::with_symbols(initial_cash, symbols);
        proof {
            assert(symbols@[0]@ == portfolio.primary());
            assert forall|s: Seq<char>| #[trigger] state.position_map().contains_key(s) <==> s == portfolio.primary() by {
                if s == portfolio.primary() {
                    assert(symbols@[0]@ == s);
                }
            }
        }
        let agent = ReactiveAgent {
            id,
            state,
            portfolio,
            strategies: StrategyList::from_vec(strategies),
            max_position,
            cost_basis: Price(0),
            high_water_mark: Price(0),
            low_water_mark: Price(i64::MAX),
            position_open_tick: None,
            session_open_price: None,
            enabled: true,
            last_evaluated_tick: 0,
            registered_exits: Vec::new(),
        };
        proof {
            assert(price_values(agent.registered_exits@) =~= Seq::<i64>::empty());
        }
        agent
    }

    /// A builder for an agent.
    pub fn builder(id: AgentId, portfolio: ReactivePortfolio) -> (b: ReactiveAgentBuilder)
        ensures
            b.id == id,
            b.portfolio == portfolio,
            b.strategies@.len() == 0,
            b.max_position == Quantity(100),
            b.initial_cash.0 == 100_000 * crate::market::PRICE_SCALE,
            b.enabled,
    {
        ReactiveAgentBuilder::new(id, portfolio)
    }

    /// The agent's id.
    pub fn agent_id(&self) -> (id: AgentId)
        ensures
            id == self@.id,
    {
        self.id
    }

    /// The agent's bookkeeping state.
    pub fn agent_state(&self) -> (s: &AgentState)
        ensures
            *s == self.state_spec(),
            s.cash_spec().0 == self@.cash,
            s.fills_spec() == self@.fills_received,
            s.position_of(self@.symbol) == self@.position,
    {
        &self.state
    }

    /// The portfolio scope.
    pub fn portfolio(&self) -> (p: &ReactivePortfolio)
        ensures
            p.primary() == self@.symbol,
    {
        &self.portfolio
    }

    /// The maximum position.
    pub fn max_position(&self) -> (q: Quantity)
        ensures
            q.0 == self@.max_position,
    {
        self.max_position
    }

    /// The strategy kinds, in order.
    pub fn strategies(&self) -> (s: Vec<StrategyKind>)
        ensures
            s@ == self@.strategies,
    {
        self.strategies.to_vec()
    }

    /// The signed position in the portfolio's symbol.
    pub fn current_position(&self) -> (p: i64)
        requires
            self.wf(),
        ensures
            p == self@.position,
    {
        self.state.position_for(self.portfolio.primary_symbol().as_str())
    }

    /// Whether a position is held.
    pub fn has_position(&self) -> (b: bool)
        requires
            self.wf(),
        ensures
            b == (self@.position != 0),
    {
        self.current_position() != 0
    }

    /// Whether the agent is long.
    pub fn is_long(&self) -> (b: bool)
        requires
            self.wf(),
        ensures
            b == (self@.position > 0),
    {
        self.current_position() > 0
    }

    /// Whether the agent is short.
    pub fn is_short(&self) -> (b: bool)
        requires
            self.wf(),
        ensures
            b == (self@.position < 0),
    {
        self.current_position() < 0
    }

    /// Whether the agent is flat.
    pub fn is_flat(&self) -> (b: bool)
        requires
            self.wf(),
        ensures
            b == (self@.position == 0),
    {
        self.current_position() == 0
    }

    /// The cost basis used by the exit strategies.
    pub fn cost_basis(&self) -> (p: Price)
        ensures
            p.0 == self@.cost_basis,
    {
        self.cost_basis
    }

    /// Shares that may still be bought: the maximum position less the size of the current one, floored at zero.
    pub fn remaining_capacity(&self) -> (q: Quantity)
        requires
            self.wf(),
        ensures
            q.0 == self@.remaining(),
    {
        let held = unsigned_magnitude(self.current_position());
        if self.max_position.0 >= held {
            Quantity(self.max_position.0 - held)
        } else {
            Quantity(0)
        }
    }

    /// Whether the agent may trade.
    pub fn is_enabled(&self) -> (b: bool)
        ensures
            b == self@.enabled,
    {
        self.enabled
    }

    /// Enable or pause the agent.
    pub fn set_enabled(&mut self, enabled: bool)
        ensures
            final(self)@ == (ReactiveView { enabled, ..old(self)@ }),
            final(self).state_spec() == old(self).state_spec(),
            final(self).wf() == old(self).wf(),
    {
        self.enabled = enabled;
    }
}

/// Step-by-step construction of a [`ReactiveAgent`].
#[derive(Debug)]
pub struct ReactiveAgentBuilder {
    pub id: AgentId,
    pub portfolio: ReactivePortfolio,
    pub strategies: Vec<StrategyKind>,
    pub max_position: Quantity,
    pub initial_cash: Cash,
    pub enabled: bool,
}

impl ReactiveAgentBuilder {
    /// A builder with no strategies, a maximum position of 100 shares and $100,000 of cash.
    pub fn new(id: AgentId, portfolio: ReactivePortfolio) -> (b: ReactiveAgentBuilder)
        ensures
            b.id == id,
            b.portfolio == portfolio,
            b.strategies@.len() == 0,
            b.max_position == Quantity(100),
            b.initial_cash.0 == 100_000 * crate::market::PRICE_SCALE,
            b.enabled,
    {
        ReactiveAgentBuilder {
            id,
            portfolio,
            strategies: Vec::new(),
            max_position: Quantity(100),
            initial_cash: Cash::from_dollars(100_000),
            enabled: true,
        }
    }

    /// Add a strategy.
    pub fn strategy(self, strategy: StrategyKind) -> (b: ReactiveAgentBuilder)
        ensures
            b.strategies@ == self.strategies@.push(strategy),
            b.id == self.id,
            b.portfolio == self.portfolio,
            b.max_position == self.max_position,
            b.initial_cash == self.initial_cash,
            b.enabled == self.enabled,
    {
        let mut b = self;
        b.strategies.push(strategy);
        b
    }

    /// Set the maximum position.
    pub fn max_position(self, max: Quantity) -> (b: ReactiveAgentBuilder)
        ensures
            b == (ReactiveAgentBuilder { max_position: max, ..self }),
    {
        ReactiveAgentBuilder { max_position: max, ..self }
    }

    /// Set the initial cash.
    pub fn initial_cash(self, cash: Cash) -> (b: ReactiveAgentBuilder)
        ensures
            b == (ReactiveAgentBuilder { initial_cash: cash, ..self }),
    {
        ReactiveAgentBuilder { initial_cash: cash, ..self }
    }

    /// Set whether the agent starts enabled.
    pub fn enabled(self, enabled: bool) -> (b: ReactiveAgentBuilder)
        ensures
            b == (ReactiveAgentBuilder { enabled, ..self }),
    {
        ReactiveAgentBuilder { enabled, ..self }
    }

    /// Build the agent.
    pub fn build(self) -> (a: ReactiveAgent)
        requires
            validation_of(self.strategies@) == StrategyValidation::Valid,
        ensures
            a.wf(),
            a@ == (ReactiveView {
                id: self.id,
                symbol: self.portfolio.primary(),
                strategies: self.strategies@,
                max_position: self.max_position.0,
                position: 0,
                cash: self.initial_cash.0,
                fills_received: 0,
                cost_basis: 0,
                high_water_mark: 0,
                low_water_mark: i64::MAX,
                position_open_tick: None,
                session_open_price: None,
                enabled: self.enabled,
                last_evaluated_tick: 0,
                registered_exits: Seq::empty(),
            }),
    {
        let enabled = self.enabled;
        let mut agent = ReactiveAgent::new(self.id, self.portfolio, self.strategies, self.max_position, self.initial_cash);
        agent.set_enabled(enabled);
        agent
    }
}

// ---------------------------------------------------------------------------
// Wake conditions
// ---------------------------------------------------------------------------

/// Appending a condition appends its view.
proof fn lemma_views_push(s: Seq<WakeCondition>, c: WakeCondition)
    ensures
        cond_views(s.push(c)) == cond_views(s).push(c@),
{
    assert(cond_views(s.push(c)) =~= cond_views(s).push(c@));
}

/// A price cross below `threshold` on a copy of `symbol`.
fn below_on(symbol: &Symbol, threshold: Price) -> (c: WakeCondition)
    ensures
        c@ == cross_below(symbol@, threshold.0),
{
    WakeCondition::price_below(symbol.clone(), threshold)
}

/// A price cross above `threshold` on a copy of `symbol`.
fn above_on(symbol: &Symbol, threshold: Price) -> (c: WakeCondition)
    ensures
        c@ == cross_above(symbol@, threshold.0),
{
    WakeCondition::price_above(symbol.clone(), threshold)
}

/// The exit condition of a strategy, if it has one.
fn exit_condition_of(k: StrategyKind, symbol: &Symbol, threshold: Price) -> (c: Option<WakeCondition>)
    ensures
        match exit_condition(k, symbol@, threshold.0) {
            Some(v) => c matches Some(w) && w@ == v,
            None => c is None,
        },
{
    match k {
        StrategyKind::StopLoss => Some(below_on(symbol, threshold)),
        StrategyKind::TakeProfit => Some(above_on(symbol, threshold)),
        StrategyKind::ThresholdSeller { sell_price } => Some(above_on(symbol, sell_price)),
        _ => None,
    }
}

/// Push a condition when there is one, tracking the collected views.
fn push_some(out: &mut Vec<WakeCondition>, c: Option<WakeCondition>, Ghost(expected): Ghost<Option<CondView>>)
    requires
        match expected {
            Some(v) => c matches Some(w) && w@ == v,
            None => c is None,
        },
    ensures
        cond_views(final(out)@) == (match expected {
            Some(v) => cond_views(old(out)@).push(v),
            None => cond_views(old(out)@),
        }),
{
    match c {
        Some(w) => {
            proof {
                lemma_views_push(out@, w);
            }
            out.push(w);
        },
        None => {},
    }
}

impl ReactiveAgent {
    /// The conditions to register when the agent is spawned: the entry
    /// threshold of each threshold buyer and a news subscription for each
    /// news reactor, in strategy order. Exit conditions come with a fill.
    pub fn initial_wake_conditions(&self, current_tick: Tick) -> (r: Vec<WakeCondition>)
        requires
            self.wf(),
        ensures
            cond_views(r@) == self@.spawn_conditions(),
    {
        let symbol = self.portfolio.primary_symbol();
        let n = self.strategies.len();
        let mut out: Vec<WakeCondition> = Vec::new();
        let mut j: usize = 0;
        while j < n
            invariant
                n == self@.strategies.len(),
                j <= n,
                symbol@ == self@.symbol,
                cond_views(out@) == collect_upto(j as int, self@.spawn_fn()),
            decreases n - j,
        {
            let c: Option<WakeCondition> = match self.strategies.get(j) {
                StrategyKind::ThresholdBuyer { buy_price } => Some(below_on(symbol, buy_price)),
                StrategyKind::NewsReactor => {
                    let mut syms: Vec<Symbol> = Vec::new();
                    syms.push(symbol.clone());
                    proof {
                        assert(crate::tiers::symbol_views(syms@) =~= seq![self@.symbol]);
                    }
                    Some(WakeCondition::on_news(syms))
                },
                _ => None,
            };
            push_some(&mut out, c, Ghost((self@.spawn_fn())(j as int)));
            j += 1;
        }
        out
    }

    /// The exit conditions to register after a fill opened a position: for
    /// each exit strategy in order, its trigger price (the exit threshold
    /// for stop loss and take profit, the sell price for a threshold
    /// seller). Nothing while flat.
    pub fn fill_wake_conditions(&self, numbers: &Vec<StrategyNumbers>) -> (r: Vec<WakeCondition>)
        requires
            self.wf(),
            numbers@.len() == self@.strategies.len(),
        ensures
            cond_views(r@) == (if self@.position == 0 {
                Seq::<CondView>::empty()
            } else {
                self@.exit_conditions(numbers@)
            }),
    {
        let mut out: Vec<WakeCondition> = Vec::new();
        if !self.has_position() {
            assert(cond_views(out@) =~= Seq::<CondView>::empty());
            return out;
        }
        let symbol = self.portfolio.primary_symbol();
        let n = self.strategies.len();
        let mut j: usize = 0;
        while j < n
            invariant
                n == self@.strategies.len(),
                n == numbers@.len(),
                j <= n,
                symbol@ == self@.symbol,
                cond_views(out@) == collect_upto(j as int, self@.exit_fn(numbers@)),
            decreases n - j,
        {
            let c = exit_condition_of(self.strategies.get(j), symbol, numbers[j].exit_threshold);
            push_some(&mut out, c, Ghost((self@.exit_fn(numbers@))(j as int)));
            j += 1;
        }
        out
    }

    /// The conditions that should be active now: the entry threshold of
    /// each threshold buyer while flat, the exit conditions while holding a
    /// position. News subscriptions stay registered from spawn and are not
    /// listed.
    pub fn current_wake_conditions(&self, numbers: &Vec<StrategyNumbers>) -> (r: Vec<WakeCondition>)
        requires
            self.wf(),
            numbers@.len() == self@.strategies.len(),
        ensures
            cond_views(r@) == self@.active_conditions(numbers@),
    {
        let symbol = self.portfolio.primary_symbol();
        let flat = self.is_flat();
        let n = self.strategies.len();
        let mut out: Vec<WakeCondition> = Vec::new();
        let mut j: usize = 0;
        while j < n
            invariant
                n == self@.strategies.len(),
                n == numbers@.len(),
                j <= n,
                symbol@ == self@.symbol,
                flat == (self@.position == 0),
                cond_views(out@) == collect_upto(j as int, self@.active_fn(numbers@)),
            decreases n - j,
        {
            let k = self.strategies.get(j);
            let c: Option<WakeCondition> = match k {
                StrategyKind::ThresholdBuyer { buy_price } => if flat {
                    Some(below_on(symbol, buy_price))
                } else {
                    None
                },
                StrategyKind::NewsReactor => None,
                _ => if flat {
                    None
                } else {
                    exit_condition_of(k, symbol, numbers[j].exit_threshold)
                },
            };
            push_some(&mut out, c, Ghost((self@.active_fn(numbers@))(j as int)));
            j += 1;
        }
        out
    }

    /// The condition changes a fill calls for, given the position before it
    /// (the current position is the one after):
    /// - a threshold buyer's entry condition is removed when a buy reaches
    ///   the maximum position, and added back after selling to flat or when
    ///   a position at the maximum drops below it;
    /// - exit conditions are added when a long position opens and removed
    ///   when it closes, both at the thresholds recorded by the fill that
    ///   opened it (see `process_fill`).
    /// `None` when nothing changes.
    pub fn compute_condition_update(&self, position_before: i64) -> (r: Option<ConditionUpdate>)
        requires
            self.wf(),
        ensures
            match r {
                None => self@.additions(position_before as int).len() == 0
                    && self@.removals(position_before as int).len() == 0,
                Some(u) => u.agent_id == self@.id
                    && cond_views(u.add@) == self@.additions(position_before as int)
                    && cond_views(u.remove@) == self@.removals(position_before as int)
                    && (u.add@.len() > 0 || u.remove@.len() > 0),
            },
    {
        let position_after = self.current_position();
        let symbol = self.portfolio.primary_symbol();
        let had_position = position_before > 0;
        let holds_position = position_after > 0;
        let bought = position_after > position_before;
        let sold_to_flat = had_position && !holds_position;
        let at_capacity = self.remaining_capacity().0 == 0;
        let was_at_capacity = position_before >= self.max_position.0 as i64;
        let ghost before = position_before as int;
        let n = self.strategies.len();
        let mut add: Vec<WakeCondition> = Vec::new();
        let mut remove: Vec<WakeCondition> = Vec::new();
        let mut j: usize = 0;
        while j < n
            invariant
                n == self@.strategies.len(),
                j <= n,
                symbol@ == self@.symbol,
                before == position_before,
                had_position == (before > 0),
                holds_position == (self@.position > 0),
                bought == (self@.position > before),
                sold_to_flat == (had_position && !holds_position),
                at_capacity == (self@.remaining() == 0),
                was_at_capacity == (before >= (self@.max_position as i64)),
                cond_views(add@) == collect_upto(j as int, self@.addition_fn(before)),
                cond_views(remove@) == collect_upto(j as int, self@.removal_fn(before)),
            decreases n - j,
        {
            let k = self.strategies.get(j);
            let registered = if j < self.registered_exits.len() {
                self.registered_exits[j]
            } else {
                Price(0)
            };
            let (rm, ad): (Option<WakeCondition>, Option<WakeCondition>) = match k {
                StrategyKind::ThresholdBuyer { buy_price } => {
                    let rm = if bought && at_capacity {
                        Some(below_on(symbol, buy_price))
                    } else {
                        None
                    };
                    let ad = if sold_to_flat || (was_at_capacity && !at_capacity) {
                        Some(below_on(symbol, buy_price))
                    } else {
                        None
                    };
                    (rm, ad)
                },
                StrategyKind::NewsReactor => (None, None),
                _ => {
                    let rm = if sold_to_flat {
                        exit_condition_of(k, symbol, registered)
                    } else {
                        None
                    };
                    let ad = if !had_position && holds_position {
                        exit_condition_of(k, symbol, registered)
                    } else {
                        None
                    };
                    (rm, ad)
                },
            };
            push_some(&mut remove, rm, Ghost((self@.removal_fn(before))(j as int)));
            push_some(&mut add, ad, Ghost((self@.addition_fn(before))(j as int)));
            j += 1;
        }
        if add.len() == 0 && remove.len() == 0 {
            None
        } else {
            Some(ConditionUpdate { agent_id: self.id, remove, add })
        }
    }

}

// ---------------------------------------------------------------------------
// Trading decisions
// ---------------------------------------------------------------------------

/// Shares that may still be bought at `position` under `max_position`.
pub open spec fn room(max_position: u64, position: int) -> int {
    if max_position >= magnitude(position) {
        max_position - magnitude(position)
    } else {
        0
    }
}

/// The reaction to the news signals from index `i` on: the first signal
/// with a positive size whose side the position allows (buying needs room,
/// selling needs a position), capped by the room or by the position taken
/// as unsigned.
pub open spec fn news_intent(signals: Seq<NewsSignal>, i: int, position: int, max_position: u64) -> Option<(OrderSide, u64)>
    decreases signals.len() - i,
{
    if i < 0 || i >= signals.len() {
        None
    } else {
        let sig = signals[i];
        let allowed = match sig.side {
            OrderSide::Buy => room(max_position, position) > 0,
            OrderSide::Sell => position != 0,
        };
        if sig.size > 0 && allowed {
            let bound: int = match sig.side {
                OrderSide::Buy => room(max_position, position),
                OrderSide::Sell => (position as u64) as int,
            };
            Some((sig.side, if sig.size <= bound { sig.size } else { bound as u64 }))
        } else {
            news_intent(signals, i + 1, position, max_position)
        }
    }
}

/// The order a strategy asks for, given whether its price condition fired.
pub open spec fn intent(k: StrategyKind, position: int, max_position: u64, fired: bool, numbers: StrategyNumbers) -> Option<(OrderSide, u64)> {
    match k {
        StrategyKind::ThresholdBuyer { .. } => {
            let free = room(max_position, position);
            let size: int = if numbers.fraction_size <= free { numbers.fraction_size as int } else { free };
            if free > 0 && fired && size > 0 {
                Some((OrderSide::Buy, size as u64))
            } else {
                None
            }
        },
        StrategyKind::StopLoss | StrategyKind::TakeProfit => if position > 0 && fired {
            Some((OrderSide::Sell, position as u64))
        } else {
            None
        },
        StrategyKind::ThresholdSeller { .. } => if position > 0 && fired && numbers.fraction_size > 0 {
            Some((OrderSide::Sell, numbers.fraction_size))
        } else {
            None
        },
        StrategyKind::NewsReactor => news_intent(numbers.news@, 0, position, max_position),
    }
}

/// The first order asked for by the strategies from index `k` on.
pub open spec fn first_intent(
    strategies: Seq<StrategyKind>,
    position: int,
    max_position: u64,
    fired: spec_fn(int) -> bool,
    numbers: Seq<StrategyNumbers>,
    k: int,
) -> Option<(OrderSide, u64)>
    decreases strategies.len() - k,
{
    if k < 0 || k >= strategies.len() {
        None
    } else {
        match intent(strategies[k], position, max_position, fired(k), numbers[k]) {
            Some(x) => Some(x),
            None => first_intent(strategies, position, max_position, fired, numbers, k + 1),
        }
    }
}

/// Whether the last price meets a strategy's trigger: at or below the buy
/// price or the stop threshold, at or above the profit threshold or the sell
/// price.
pub open spec fn price_fired(k: StrategyKind, price: i64, threshold: i64) -> bool {
    match k {
        StrategyKind::ThresholdBuyer { buy_price } => price <= buy_price.0,
        StrategyKind::StopLoss => price <= threshold,
        StrategyKind::TakeProfit => price >= threshold,
        StrategyKind::ThresholdSeller { sell_price } => price >= sell_price.0,
        StrategyKind::NewsReactor => false,
    }
}

/// Strategy `j`'s trigger at `price`.
pub open spec fn price_fired_fn(strategies: Seq<StrategyKind>, price: i64, numbers: Seq<StrategyNumbers>) -> spec_fn(int) -> bool {
    |j: int| price_fired(strategies[j], price, numbers[j].exit_threshold.0)
}

/// The same trigger for every strategy.
pub open spec fn constant_fn(b: bool) -> spec_fn(int) -> bool {
    |j: int| b
}

impl ReactiveView {
    /// The view after seeing a session open price and a last price: the
    /// session open is recorded once, and the water marks follow the price
    /// while a position is held.
    pub open spec fn observed(self, session: Option<i64>, mark: Option<i64>) -> ReactiveView {
        ReactiveView {
            session_open_price: if self.session_open_price is None && session is Some {
                session
            } else {
                self.session_open_price
            },
            high_water_mark: match mark {
                Some(p) => if self.position != 0 && p > self.high_water_mark { p } else { self.high_water_mark },
                None => self.high_water_mark,
            },
            low_water_mark: match mark {
                Some(p) => if self.position != 0 && p < self.low_water_mark { p } else { self.low_water_mark },
                None => self.low_water_mark,
            },
            ..self
        }
    }
}

/// An empty action.
pub open spec fn is_empty_action(a: AgentAction) -> bool {
    a.orders@.len() == 0 && a.cancellations@.len() == 0
}

impl ReactiveAgent {
    /// A market order action for this agent.
    fn market_order(&self, symbol: &Symbol, side: OrderSide, quantity: Quantity) -> (a: AgentAction)
        ensures
            is_market_action(a, self@.id, symbol@, side, quantity.0),
    {
        AgentAction::single(Order::market(self.id, symbol.as_str(), side, quantity))
    }

    /// The reaction to the news signals, if any is allowed.
    fn react_to_news(&self, signals: &Vec<NewsSignal>) -> (r: Option<AgentAction>)
        requires
            self.wf(),
        ensures
            match news_intent(signals@, 0, self@.position, self@.max_position) {
                Some((side, q)) => r matches Some(a) && is_market_action(a, self@.id, self@.symbol, side, q),
                None => r is None,
            },
    {
        let symbol = self.portfolio.primary_symbol();
        let position = self.current_position();
        let free = self.remaining_capacity().0;
        let mut i: usize = 0;
        while i < signals.len()
            invariant
                self.wf(),
                i <= signals@.len(),
                symbol@ == self@.symbol,
                position == self@.position,
                free == room(self@.max_position, self@.position),
                news_intent(signals@, 0, self@.position, self@.max_position)
                    == news_intent(signals@, i as int, self@.position, self@.max_position),
            decreases signals@.len() - i,
        {
            let sig = signals[i];
            let allowed = match sig.side {
                OrderSide::Buy => free > 0,
                OrderSide::Sell => position != 0,
            };
            if sig.size > 0 && allowed {
                let bound: u64 = match sig.side {
                    OrderSide::Buy => free,
                    OrderSide::Sell => position as u64,
                };
                let size = if sig.size <= bound { sig.size } else { bound };
                return Some(self.market_order(symbol, sig.side, Quantity(size)));
            }
            i += 1;
        }
        None
    }

    /// The order strategy `j` asks for, given whether its condition fired.
    fn act(&self, j: usize, fired: bool, numbers: &StrategyNumbers) -> (r: Option<AgentAction>)
        requires
            self.wf(),
            j < self@.strategies.len(),
        ensures
            match intent(self@.strategies[j as int], self@.position, self@.max_position, fired, *numbers) {
                Some((side, q)) => r matches Some(a) && is_market_action(a, self@.id, self@.symbol, side, q),
                None => r is None,
            },
    {
        let symbol = self.portfolio.primary_symbol();
        let position = self.current_position();
        match self.strategies.get(j) {
            StrategyKind::ThresholdBuyer { .. } => {
                let free = self.remaining_capacity().0;
                let size = if numbers.fraction_size <= free { numbers.fraction_size } else { free };
                if free > 0 && fired && size > 0 {
                    Some(self.market_order(symbol, OrderSide::Buy, Quantity(size)))
                } else {
                    None
                }
            },
            StrategyKind::StopLoss | StrategyKind::TakeProfit => {
                if position > 0 && fired {
                    Some(self.market_order(symbol, OrderSide::Sell, Quantity(position as u64)))
                } else {
                    None
                }
            },
            StrategyKind::ThresholdSeller { .. } => {
                if position > 0 && fired && numbers.fraction_size > 0 {
                    Some(self.market_order(symbol, OrderSide::Sell, Quantity(numbers.fraction_size)))
                } else {
                    None
                }
            },
            StrategyKind::NewsReactor => self.react_to_news(&numbers.news),
        }
    }

    /// Whether strategy `j` acts at the last price `current_price`, and how.
    pub fn check_strategy_trigger(&self, j: usize, current_price: Price, numbers: &StrategyNumbers) -> (r: Option<AgentAction>)
        requires
            self.wf(),
            j < self@.strategies.len(),
        ensures
            match intent(
                self@.strategies[j as int],
                self@.position,
                self@.max_position,
                price_fired(self@.strategies[j as int], current_price.0, numbers.exit_threshold.0),
                *numbers,
            ) {
                Some((side, q)) => r matches Some(a) && is_market_action(a, self@.id, self@.symbol, side, q),
                None => r is None,
            },
    {
        let fired = match self.strategies.get(j) {
            StrategyKind::ThresholdBuyer { buy_price } => current_price.0 <= buy_price.0,
            StrategyKind::StopLoss => current_price.0 <= numbers.exit_threshold.0,
            StrategyKind::TakeProfit => current_price.0 >= numbers.exit_threshold.0,
            StrategyKind::ThresholdSeller { sell_price } => current_price.0 >= sell_price.0,
            StrategyKind::NewsReactor => false,
        };
        self.act(j, fired, numbers)
    }

    /// Whether strategy `j` acts on a wake with context `ctx`, and how: the
    /// price strategies act when a price cross woke the agent.
    pub fn try_strategy(&self, j: usize, ctx: &LightweightContext, numbers: &StrategyNumbers) -> (r: Option<AgentAction>)
        requires
            self.wf(),
            j < self@.strategies.len(),
        ensures
            match intent(
                self@.strategies[j as int],
                self@.position,
                self@.max_position,
                ctx.any_reason(|c: CondView| c is PriceCross),
                *numbers,
            ) {
                Some((side, q)) => r matches Some(a) && is_market_action(a, self@.id, self@.symbol, side, q),
                None => r is None,
            },
    {
        let fired = ctx.woke_on_price_cross();
        self.act(j, fired, numbers)
    }

    /// The first strategy, in order, that acts at the last price `price`.
    fn first_triggered(&self, price: Price, numbers: &Vec<StrategyNumbers>) -> (r: Option<AgentAction>)
        requires
            self.wf(),
            numbers@.len() == self@.strategies.len(),
        ensures
            match first_intent(
                self@.strategies,
                self@.position,
                self@.max_position,
                price_fired_fn(self@.strategies, price.0, numbers@),
                numbers@,
                0,
            ) {
                Some((side, q)) => r matches Some(a) && is_market_action(a, self@.id, self@.symbol, side, q),
                None => r is None,
            },
    {
        let ghost f = price_fired_fn(self@.strategies, price.0, numbers@);
        let n = self.strategies.len();
        let mut j: usize = 0;
        while j < n
            invariant
                self.wf(),
                n == self@.strategies.len(),
                n == numbers@.len(),
                j <= n,
                f == price_fired_fn(self@.strategies, price.0, numbers@),
                first_intent(self@.strategies, self@.position, self@.max_position, f, numbers@, 0)
                    == first_intent(self@.strategies, self@.position, self@.max_position, f, numbers@, j as int),
            decreases n - j,
        {
            match self.check_strategy_trigger(j, price, &numbers[j]) {
                Some(a) => {
                    return Some(a);
                },
                None => {},
            }
            j += 1;
        }
        None
    }

    /// The first strategy, in order, that acts on a wake with context `ctx`.
    fn first_woken(&self, ctx: &LightweightContext, numbers: &Vec<StrategyNumbers>) -> (r: Option<AgentAction>)
        requires
            self.wf(),
            numbers@.len() == self@.strategies.len(),
        ensures
            match first_intent(
                self@.strategies,
                self@.position,
                self@.max_position,
                constant_fn(ctx.any_reason(|c: CondView| c is PriceCross)),
                numbers@,
                0,
            ) {
                Some((side, q)) => r matches Some(a) && is_market_action(a, self@.id, self@.symbol, side, q),
                None => r is None,
            },
    {
        let ghost f = constant_fn(ctx.any_reason(|c: CondView| c is PriceCross));
        let n = self.strategies.len();
        let mut j: usize = 0;
        while j < n
            invariant
                self.wf(),
                n == self@.strategies.len(),
                n == numbers@.len(),
                j <= n,
                f == constant_fn(ctx.any_reason(|c: CondView| c is PriceCross)),
                first_intent(self@.strategies, self@.position, self@.max_position, f, numbers@, 0)
                    == first_intent(self@.strategies, self@.position, self@.max_position, f, numbers@, j as int),
            decreases n - j,
        {
            match self.try_strategy(j, ctx, &numbers[j]) {
                Some(a) => {
                    return Some(a);
                },
                None => {},
            }
            j += 1;
        }
        None
    }
}

// ---------------------------------------------------------------------------
// Ticks, wakes and fills
// ---------------------------------------------------------------------------

impl ReactiveView {
    /// Whether a fill of `quantity` shares at `price` on `side` stays within
    /// the machine integers of the bookkeeping.
    pub open spec fn fill_allowed(self, side: OrderSide, quantity: u64, price: i64) -> bool {
        &&& quantity <= i64::MAX
        &&& i64::MIN <= price * quantity <= i64::MAX
        &&& self.fills_received < u64::MAX
        &&& match side {
            OrderSide::Buy => self.position + quantity <= i64::MAX
                && i64::MIN <= self.cash - price * quantity <= i64::MAX
                && (self.position >= 0 ==> i64::MIN <= self.cost_basis * self.position <= i64::MAX
                    && i64::MIN <= self.cost_basis * self.position + price * quantity <= i64::MAX),
            OrderSide::Sell => self.position - quantity >= i64::MIN
                && i64::MIN <= self.cash + price * quantity <= i64::MAX,
        }
    }

    /// The view after a fill of `quantity` shares at `price` on `side` at `tick`:
    /// - the position and cash move by the trade;
    /// - a buy into a flat or long position averages the cost basis
    ///   (truncating), a buy that turns a short long starts it at the price,
    ///   a sell that turns a flat or long position short starts it at the price;
    /// - opening a position records the tick and starts both water marks at
    ///   the price; closing one clears the tick, the marks and the cost basis.
    pub open spec fn after_fill(self, side: OrderSide, quantity: u64, price: i64, tick: u64) -> ReactiveView {
        let new_position: int = match side {
            OrderSide::Buy => self.position + quantity,
            OrderSide::Sell => self.position - quantity,
        };
        let basis: i64 = match side {
            OrderSide::Buy => if self.position >= 0 {
                if new_position > 0 {
                    trunc_div(self.cost_basis * self.position + price * quantity, new_position) as i64
                } else {
                    self.cost_basis
                }
            } else if new_position > 0 {
                price
            } else {
                self.cost_basis
            },
            OrderSide::Sell => if new_position < 0 && self.position >= 0 {
                price
            } else {
                self.cost_basis
            },
        };
        let cash: i64 = match side {
            OrderSide::Buy => (self.cash - price * quantity) as i64,
            OrderSide::Sell => (self.cash + price * quantity) as i64,
        };
        let base = ReactiveView {
            position: new_position,
            cash,
            fills_received: (self.fills_received + 1) as u64,
            cost_basis: basis,
            ..self
        };
        if self.position == 0 && new_position != 0 {
            ReactiveView { position_open_tick: Some(tick), high_water_mark: price, low_water_mark: price, ..base }
        } else if new_position == 0 {
            ReactiveView { position_open_tick: None, high_water_mark: 0, low_water_mark: i64::MAX, cost_basis: 0, ..base }
        } else {
            base
        }
    }
}

/// `trunc_div` of a value within `i64` by a positive divisor stays within `i64`.
proof fn lemma_trunc_div_bounds(a: int, b: int)
    requires
        b >= 1,
        i64::MIN <= a <= i64::MAX,
    ensures
        i64::MIN <= trunc_div(a, b) <= i64::MAX,
{
    if a >= 0 {
        assert(a / b <= a) by (nonlinear_arith)
            requires
                a >= 0,
                b >= 1,
        ;
        assert(a / b >= 0) by (nonlinear_arith)
            requires
                a >= 0,
                b >= 1,
        ;
    } else {
        assert((-a) / b <= -a) by (nonlinear_arith)
            requires
                -a >= 0,
                b >= 1,
        ;
        assert((-a) / b >= 0) by (nonlinear_arith)
            requires
                -a >= 0,
                b >= 1,
        ;
    }
}

impl ReactiveView {
    /// The view after a fill from a position `before`: a fill that opens a
    /// long position records `exits`, the exit thresholds of that position.
    pub open spec fn record_exits(self, before: int, exits: Seq<i64>) -> ReactiveView {
        if before <= 0 && self.position > 0 {
            ReactiveView { registered_exits: exits, ..self }
        } else {
            self
        }
    }
}

impl ReactiveAgent {
    /// Record a fill of `quantity` shares at `price` on `side` at `tick`, in
    /// the bookkeeping state and in the cost basis, position tick and water
    /// marks that the strategies use. `exits` holds, strategy by strategy,
    /// the exit threshold of a long position whose cost basis is `price`;
    /// a fill that opens a long position (its basis is then `price`)
    /// records them, to be added and later removed as that position's exit
    /// conditions.
    pub fn process_fill(&mut self, side: OrderSide, quantity: Quantity, price: Price, tick: Tick, exits: &Vec<Price>)
        requires
            old(self).wf(),
            old(self)@.fill_allowed(side, quantity.0, price.0),
        ensures
            final(self).wf(),
            final(self)@ == old(self)@.after_fill(side, quantity.0, price.0, tick).record_exits(
                old(self)@.position,
                price_values(exits@),
            ),
            final(self).state_spec().orders_spec() == old(self).state_spec().orders_spec(),
    {
        let qty: i64 = quantity.0 as i64;
        let old_position = self.current_position();
        let trade_value = Cash(price.0 * qty);
        match side {
            OrderSide::Buy => {
                self.state.on_buy(self.portfolio.primary_symbol().as_str(), quantity.0, trade_value);
            },
            OrderSide::Sell => {
                self.state.on_sell(self.portfolio.primary_symbol().as_str(), quantity.0, trade_value);
            },
        }
        let new_position = self.current_position();
        match side {
            OrderSide::Buy => {
                if old_position >= 0 {
                    let total_cost = self.cost_basis.0 * old_position + price.0 * qty;
                    if new_position > 0 {
                        proof {
                            lemma_trunc_div_bounds(total_cost as int, new_position as int);
                        }
                        self.cost_basis = Price(crate::accounting::truncating_div(total_cost, new_position));
                    }
                } else if new_position > 0 {
                    self.cost_basis = price;
                }
            },
            OrderSide::Sell => {
                if new_position < 0 && old_position >= 0 {
                    self.cost_basis = price;
                }
            },
        }
        if old_position == 0 && new_position != 0 {
            self.position_open_tick = Some(tick);
            self.high_water_mark = price;
            self.low_water_mark = price;
        } else if new_position == 0 {
            self.position_open_tick = None;
            self.high_water_mark = Price(0);
            self.low_water_mark = Price(i64::MAX);
            self.cost_basis = Price(0);
        }
        if old_position <= 0 && new_position > 0 {
            let mut recorded: Vec<Price> = Vec::new();
            let mut j: usize = 0;
            while j < exits.len()
                invariant
                    j <= exits@.len(),
                    recorded@ == exits@.take(j as int),
                decreases exits@.len() - j,
            {
                recorded.push(exits[j]);
                proof {
                    assert(exits@.take(j as int + 1) =~= exits@.take(j as int).push(exits@[j as int]));
                }
                j += 1;
            }
            proof {
                assert(exits@.take(exits@.len() as int) =~= exits@);
            }
            self.registered_exits = recorded;
        }
    }

    /// Record a trade this agent took part in, on the buying side, the
    /// selling side, or both for a trade with itself (at tick 0); `exits`
    /// as for `process_fill`, for a basis at the trade's price.
    pub fn on_fill(&mut self, trade: &Trade, exits: &Vec<Price>)
        requires
            old(self).wf(),
            trade.buyer_id == old(self)@.id ==> old(self)@.fill_allowed(OrderSide::Buy, trade.quantity.0, trade.price.0),
            trade.seller_id == old(self)@.id ==> (if trade.buyer_id == old(self)@.id {
                old(self)@.after_fill(OrderSide::Buy, trade.quantity.0, trade.price.0, 0)
            } else {
                old(self)@
            }).fill_allowed(OrderSide::Sell, trade.quantity.0, trade.price.0),
        ensures
            final(self).wf(),
            final(self)@ == ({
                let bought = if trade.buyer_id == old(self)@.id {
                    old(self)@.after_fill(OrderSide::Buy, trade.quantity.0, trade.price.0, 0).record_exits(
                        old(self)@.position,
                        price_values(exits@),
                    )
                } else {
                    old(self)@
                };
                if trade.seller_id == old(self)@.id {
                    bought.after_fill(OrderSide::Sell, trade.quantity.0, trade.price.0, 0).record_exits(
                        bought.position,
                        price_values(exits@),
                    )
                } else {
                    bought
                }
            }),
    {
        if trade.buyer_id.0 == self.id.0 {
            self.process_fill(OrderSide::Buy, trade.quantity, trade.price, 0, exits);
        }
        if trade.seller_id.0 == self.id.0 {
            self.process_fill(OrderSide::Sell, trade.quantity, trade.price, 0, exits);
        }
    }

    /// The polling path, run on every tick with the last price of the
    /// symbol: a disabled agent, or one without a price, does nothing.
    /// Otherwise the session open is recorded once, the water marks follow
    /// the price while a position is held, and the first strategy in order
    /// whose trigger the price meets places its order (recording the tick).
    pub fn on_tick(&mut self, tick: Tick, last_price: Option<Price>, numbers: &Vec<StrategyNumbers>) -> (r: AgentAction)
        requires
            old(self).wf(),
            numbers@.len() == old(self)@.strategies.len(),
        ensures
            final(self).wf(),
            final(self).state_spec() == old(self).state_spec(),
            if !old(self)@.enabled || last_price is None {
                is_empty_action(r) && final(self)@ == old(self)@
            } else {
                let p = match last_price {
                    Some(x) => x.0,
                    None => 0,
                };
                let seen = old(self)@.observed(Some(p), Some(p));
                match first_intent(
                    old(self)@.strategies,
                    old(self)@.position,
                    old(self)@.max_position,
                    price_fired_fn(old(self)@.strategies, p, numbers@),
                    numbers@,
                    0,
                ) {
                    Some((side, q)) => is_market_action(r, old(self)@.id, old(self)@.symbol, side, q)
                        && final(self)@ == (ReactiveView { last_evaluated_tick: tick, ..seen }),
                    None => is_empty_action(r) && final(self)@ == seen,
                }
            },
    {
        if !self.enabled {
            return AgentAction::none();
        }
        let current_price = match last_price {
            Some(p) => p,
            None => {
                return AgentAction::none();
            },
        };
        if self.session_open_price.is_none() {
            self.session_open_price = Some(current_price);
        }
        if self.has_position() {
            if current_price.0 > self.high_water_mark.0 {
                self.high_water_mark = current_price;
            }
            if current_price.0 < self.low_water_mark.0 {
                self.low_water_mark = current_price;
            }
        }
        match self.first_triggered(current_price, numbers) {
            Some(action) => {
                self.last_evaluated_tick = tick;
                action
            },
            None => AgentAction::none(),
        }
    }

    /// The wake path: a disabled agent does nothing. Otherwise the session
    /// open comes from the symbol's snapshot once, the water marks follow
    /// its last price while a position is held, and the first strategy in
    /// order that acts on this wake places its order. No condition update is
    /// returned: the caller restores the conditions from
    /// `current_wake_conditions`.
    pub fn on_wake(&mut self, ctx: &LightweightContext, numbers: &Vec<StrategyNumbers>) -> (r: (Option<AgentAction>, Option<ConditionUpdate>))
        requires
            old(self).wf(),
            numbers@.len() == old(self)@.strategies.len(),
        ensures
            final(self).wf(),
            final(self).state_spec() == old(self).state_spec(),
            r.1 is None,
            if !old(self)@.enabled {
                r.0 is None && final(self)@ == old(self)@
            } else {
                let snap = ctx.snapshot_of(old(self)@.symbol);
                final(self)@ == old(self)@.observed(
                    match snap {
                        Some(sn) => Some(sn.open.0),
                        None => None,
                    },
                    match snap {
                        Some(sn) => Some(sn.last.0),
                        None => None,
                    },
                ) && match first_intent(
                    old(self)@.strategies,
                    old(self)@.position,
                    old(self)@.max_position,
                    constant_fn(ctx.any_reason(|c: CondView| c is PriceCross)),
                    numbers@,
                    0,
                ) {
                    Some((side, q)) => r.0 matches Some(a) && is_market_action(a, old(self)@.id, old(self)@.symbol, side, q),
                    None => r.0 is None,
                }
            },
    {
        if !self.enabled {
            return (None, None);
        }
        let symbol = self.portfolio.primary_symbol().clone();
        if self.session_open_price.is_none() {
            match ctx.price_snapshot(&symbol) {
                Some(snapshot) => {
                    self.session_open_price = Some(snapshot.open);
                },
                None => {},
            }
        }
        if self.has_position() {
            match ctx.price(&symbol) {
                Some(price) => {
                    if price.0 > self.high_water_mark.0 {
                        self.high_water_mark = price;
                    }
                    if price.0 < self.low_water_mark.0 {
                        self.low_water_mark = price;
                    }
                },
                None => {},
            }
        }
        match self.first_woken(ctx, numbers) {
            Some(action) => (Some(action), None),
            None => (None, None),
        }
    }

    /// The price a reference stands for, where the agent knows it: the cost
    /// basis and the high water mark once positive, the low water mark once
    /// below its initial maximum, the session open once seen, and a
    /// snapshot's own price. The fundamental value is not known here.
    pub fn resolve_reference(&self, reference: &PriceReference) -> (r: Option<Price>)
        ensures
            r == (match *reference {
                PriceReference::CostBasis => if self@.cost_basis > 0 { Some(Price(self@.cost_basis)) } else { None },
                PriceReference::OpenPrice => match self@.session_open_price {
                    Some(p) => Some(Price(p)),
                    None => None,
                },
                PriceReference::HighWaterMark => if self@.high_water_mark > 0 {
                    Some(Price(self@.high_water_mark))
                } else {
                    None
                },
                PriceReference::LowWaterMark => if self@.low_water_mark < i64::MAX {
                    Some(Price(self@.low_water_mark))
                } else {
                    None
                },
                PriceReference::FundamentalValue => None,
                PriceReference::Snapshot(p) => Some(p),
            }),
    {
        match reference {
            PriceReference::CostBasis => if self.cost_basis.0 > 0 {
                Some(self.cost_basis)
            } else {
                None
            },
            PriceReference::OpenPrice => self.session_open_price,
            PriceReference::HighWaterMark => if self.high_water_mark.0 > 0 {
                Some(self.high_water_mark)
            } else {
                None
            },
            PriceReference::LowWaterMark => if self.low_water_mark.0 < i64::MAX {
                Some(self.low_water_mark)
            } else {
                None
            },
            PriceReference::FundamentalValue => None,
            PriceReference::Snapshot(price) => Some(*price),
        }
    }
}

// ---------------------------------------------------------------------------
// Laws
// ---------------------------------------------------------------------------

/// Collecting two functions that agree on `0..n` gives the same sequence.
proof fn lemma_collect_congruent<B>(n: int, f: spec_fn(int) -> Option<B>, g: spec_fn(int) -> Option<B>)
    requires
        forall|j: int| 0 <= j < n ==> #[trigger] f(j) == g(j),
    ensures
        collect_upto(n, f) == collect_upto(n, g),
    decreases n,
{
    if n > 0 {
        lemma_collect_congruent(n - 1, f, g);
        assert(f(n - 1) == g(n - 1));
    }
}

/// While a position is held, the conditions that should be active are
/// exactly the exit conditions registered on a fill.
pub proof fn lemma_active_while_holding(v: ReactiveView, numbers: Seq<StrategyNumbers>)
    requires
        v.position != 0,
    ensures
        v.active_conditions(numbers) == v.exit_conditions(numbers),
{
    assert forall|j: int| 0 <= j < v.strategies.len() implies #[trigger] (v.active_fn(numbers))(j) == (v.exit_fn(numbers))(j) by {
    }
    lemma_collect_congruent(v.strategies.len() as int, v.active_fn(numbers), v.exit_fn(numbers));
}

/// Collecting from a function that yields nothing gives nothing.
proof fn lemma_collect_none(n: int)
    ensures
        collect_upto(n, |j: int| None::<CondView>).len() == 0,
    decreases n,
{
    if n > 0 {
        lemma_collect_none(n - 1);
    }
}

/// What a function yields at an index below `n` is among what is collected.
proof fn lemma_collect_contains<B>(n: int, f: spec_fn(int) -> Option<B>, j: int, b: B)
    requires
        0 <= j < n,
        f(j) == Some(b),
    ensures
        collect_upto(n, f).contains(b),
    decreases n,
{
    if j == n - 1 {
        let r = collect_upto(n - 1, f);
        assert(collect_upto(n, f) == r.push(b));
        assert(r.push(b)[r.len() as int] == b);
    } else {
        lemma_collect_contains(n - 1, f, j, b);
        let r = collect_upto(n - 1, f);
        let k = choose|k: int| 0 <= k < r.len() && r[k] == b;
        match f(n - 1) {
            Some(c) => {
                assert(collect_upto(n, f) == r.push(c));
                assert(r.push(c)[k] == b);
            },
            None => {},
        }
    }
}

/// A threshold buyer regains its entry condition as soon as a sale takes
/// the position from the maximum (or above) to a long position below it:
/// the agent has room to buy again, so it must be woken when the price
/// falls to its buy price.
pub proof fn lemma_partial_sale_from_max_readds_entry(v: ReactiveView, before: int, j: int, buy_price: Price)
    requires
        v.max_position <= i64::MAX,
        0 <= j < v.strategies.len(),
        v.strategies[j] == (StrategyKind::ThresholdBuyer { buy_price }),
        before >= v.max_position,
        0 < v.position < v.max_position,
    ensures
        v.additions(before).contains(
            CondView::PriceCross { symbol: v.symbol, threshold: buy_price.0, direction: CrossDirection::Below },
        ),
{
    assert((v.max_position as i64) as int == v.max_position as int);
    lemma_collect_contains(
        v.strategies.len() as int,
        v.addition_fn(before),
        j,
        CondView::PriceCross { symbol: v.symbol, threshold: buy_price.0, direction: CrossDirection::Below },
    );
}

/// A threshold buyer drops its entry condition when a buy fills it up to
/// the maximum position: it can buy no more.
pub proof fn lemma_buy_to_max_removes_entry(v: ReactiveView, before: int, j: int, buy_price: Price)
    requires
        0 <= j < v.strategies.len(),
        v.strategies[j] == (StrategyKind::ThresholdBuyer { buy_price }),
        before < v.position,
        v.position >= v.max_position,
    ensures
        v.removals(before).contains(
            CondView::PriceCross { symbol: v.symbol, threshold: buy_price.0, direction: CrossDirection::Below },
        ),
{
    lemma_collect_contains(
        v.strategies.len() as int,
        v.removal_fn(before),
        j,
        CondView::PriceCross { symbol: v.symbol, threshold: buy_price.0, direction: CrossDirection::Below },
    );
}

/// How a strategy acts on a long position at `price`, with `numbers` its
/// exit threshold and sizes: a stop loss sells the whole position exactly
/// when the price is at or below its threshold; a take profit sells the
/// whole position exactly when the price is at or above its threshold; a
/// threshold seller sells its size exactly when the price is at or above its
/// sell price (and the size is positive); a threshold buyer buys, capped by
/// the room left, exactly when the price is at or below its buy price (and
/// both the room and its size are positive).
pub proof fn lemma_price_strategies_act(k: StrategyKind, position: int, max_position: u64, price: i64, numbers: StrategyNumbers)
    requires
        0 < position <= u64::MAX,
    ensures
        k == StrategyKind::StopLoss ==> intent(k, position, max_position, price_fired(k, price, numbers.exit_threshold.0), numbers)
            == (if price <= numbers.exit_threshold.0 { Some((OrderSide::Sell, position as u64)) } else { None }),
        k == StrategyKind::TakeProfit ==> intent(k, position, max_position, price_fired(k, price, numbers.exit_threshold.0), numbers)
            == (if price >= numbers.exit_threshold.0 { Some((OrderSide::Sell, position as u64)) } else { None }),
        k matches StrategyKind::ThresholdSeller { sell_price } ==> intent(k, position, max_position, price_fired(k, price, numbers.exit_threshold.0), numbers)
            == (if price >= sell_price.0 && numbers.fraction_size > 0 { Some((OrderSide::Sell, numbers.fraction_size)) } else { None }),
        k matches StrategyKind::ThresholdBuyer { buy_price } ==> ({
            let free: int = if max_position >= position { max_position - position } else { 0 };
            let size: int = if numbers.fraction_size <= free { numbers.fraction_size as int } else { free };
            intent(k, position, max_position, price_fired(k, price, numbers.exit_threshold.0), numbers)
                == (if price <= buy_price.0 && free > 0 && size > 0 { Some((OrderSide::Buy, size as u64)) } else { None })
        }),
{
}

/// Buying into a long position averages the cost basis: after buying `q`
/// shares at `price` into `n > 0` shares held at basis `b` (both prices
/// non-negative), the basis `c` is the total cost divided by the new
/// position, rounded down: `c * (n + q) <= b * n + price * q < (c + 1) * (n + q)`.
/// Selling part of a long position leaves the basis as it is.
pub proof fn lemma_cost_basis_is_average(v: ReactiveView, q: u64, price: i64, tick: u64)
    requires
        v.position > 0,
        v.cost_basis >= 0,
        price >= 0,
        v.fill_allowed(OrderSide::Buy, q, price),
    ensures
        ({
            let c = v.after_fill(OrderSide::Buy, q, price, tick).cost_basis as int;
            let n = v.position;
            let total = v.cost_basis * n + price * q;
            &&& c * (n + q) <= total
            &&& total < (c + 1) * (n + q)
        }),
        q < v.position ==> v.after_fill(OrderSide::Sell, q, price, tick).cost_basis == v.cost_basis,
{
    let n = v.position;
    let total = v.cost_basis * n + price * q;
    assert(total >= 0) by (nonlinear_arith)
        requires
            v.cost_basis >= 0,
            n > 0,
            price >= 0,
            q >= 0,
            total == v.cost_basis * n + price * q,
    ;
    let d = n + q;
    let c = total / d;
    assert(c * d <= total && total < (c + 1) * d) by (nonlinear_arith)
        requires
            d > 0,
            total >= 0,
            c == total / d,
    ;
    assert(0 <= c <= total) by (nonlinear_arith)
        requires
            d >= 1,
            total >= 0,
            c == total / d,
    ;
    assert(trunc_div(total, d) == c);
}

/// A fill that opens a long position from flat adds exactly the exit
/// conditions recorded for it (for a maximum position that fits in an `i64`).
pub proof fn lemma_opening_adds_exits(v: ReactiveView)
    requires
        v.position > 0,
        v.max_position <= i64::MAX,
    ensures
        v.additions(0) == v.registered_exit_conditions(),
{
    assert forall|j: int| 0 <= j < v.strategies.len() implies #[trigger] (v.addition_fn(0))(j) == (v.registered_exit_fn())(j) by {
        assert((v.max_position as i64) as int == v.max_position as int);
    }
    lemma_collect_congruent(v.strategies.len() as int, v.addition_fn(0), v.registered_exit_fn());
}

/// A fill that closes a long position to flat removes exactly the exit
/// conditions recorded when the position opened and adds back the
/// conditions active while flat.
pub proof fn lemma_closing_restores_entries(v: ReactiveView, before: int, numbers: Seq<StrategyNumbers>)
    requires
        before > 0,
        v.position == 0,
    ensures
        v.removals(before) == v.registered_exit_conditions(),
        v.additions(before) == v.active_conditions(numbers),
{
    assert forall|j: int| 0 <= j < v.strategies.len() implies #[trigger] (v.removal_fn(before))(j) == (v.registered_exit_fn())(j) by {
    }
    lemma_collect_congruent(v.strategies.len() as int, v.removal_fn(before), v.registered_exit_fn());
    assert forall|j: int| 0 <= j < v.strategies.len() implies #[trigger] (v.addition_fn(before))(j) == (v.active_fn(numbers))(j) by {
    }
    lemma_collect_congruent(v.strategies.len() as int, v.addition_fn(before), v.active_fn(numbers));
}

/// Closing a long position removes exactly the exit conditions of that
/// position, the ones its opening added: `opened` is the agent just after
/// the fill that opened it (from `opened_from <= 0`), which recorded them;
/// fills while the position stays open leave them as they are, so when a
/// fill later takes the position from `before > 0` to flat (or short), the
/// removals are what the opening added, whatever the cost basis has become
/// (for a maximum position that fits in an `i64`).
pub proof fn lemma_close_removes_opened_exits(opened: ReactiveView, opened_from: int, closed: ReactiveView, before: int)
    requires
        opened_from <= 0,
        opened.position > 0,
        opened.max_position <= i64::MAX,
        closed.strategies == opened.strategies,
        closed.symbol == opened.symbol,
        closed.registered_exits == opened.registered_exits,
        before > 0,
        closed.position <= 0,
    ensures
        closed.removals(before) == opened.additions(opened_from),
{
    assert forall|j: int| 0 <= j < closed.strategies.len() implies #[trigger] (closed.removal_fn(before))(j) == (opened.addition_fn(opened_from))(j) by {
        assert((opened.max_position as i64) as int == opened.max_position as int);
    }
    lemma_collect_congruent(closed.strategies.len() as int, closed.removal_fn(before), opened.addition_fn(opened_from));
}

/// A fill that leaves the position where it was calls for no condition
/// change (for a maximum position that fits in an `i64`).
pub proof fn lemma_no_move_no_update(v: ReactiveView)
    requires
        v.max_position <= i64::MAX,
    ensures
        v.additions(v.position).len() == 0,
        v.removals(v.position).len() == 0,
{
    let none = |j: int| None::<CondView>;
    assert forall|j: int| 0 <= j < v.strategies.len() implies #[trigger] (v.addition_fn(v.position))(j) == none(j) by {
        assert((v.max_position as i64) as int == v.max_position as int);
    }
    lemma_collect_congruent(v.strategies.len() as int, v.addition_fn(v.position), none);
    assert forall|j: int| 0 <= j < v.strategies.len() implies #[trigger] (v.removal_fn(v.position))(j) == none(j) by {
    }
    lemma_collect_congruent(v.strategies.len() as int, v.removal_fn(v.position), none);
    lemma_collect_none(v.strategies.len() as int);
}

/// Every buy a news reaction asks for has a positive size within the room left.
proof fn lemma_news_buy_within_room(signals: Seq<NewsSignal>, i: int, position: int, max_position: u64)
    ensures
        match news_intent(signals, i, position, max_position) {
            Some((side, q)) => side == OrderSide::Buy ==> 0 < q <= room(max_position, position),
            None => true,
        },
    decreases signals.len() - i,
{
    if 0 <= i < signals.len() {
        lemma_news_buy_within_room(signals, i + 1, position, max_position);
    }
}

/// Position guard: whatever fired, a buy the strategies choose is for at
/// least one share and never more than the room left under the maximum
/// position.
pub proof fn lemma_buys_within_capacity(
    strategies: Seq<StrategyKind>,
    position: int,
    max_position: u64,
    fired: spec_fn(int) -> bool,
    numbers: Seq<StrategyNumbers>,
    k: int,
)
    requires
        numbers.len() == strategies.len(),
    ensures
        match first_intent(strategies, position, max_position, fired, numbers, k) {
            Some((side, q)) => side == OrderSide::Buy ==> 0 < q <= room(max_position, position),
            None => true,
        },
    decreases strategies.len() - k,
{
    if 0 <= k < strategies.len() {
        lemma_buys_within_capacity(strategies, position, max_position, fired, numbers, k + 1);
        lemma_news_buy_within_room(numbers[k].news@, 0, position, max_position);
    }
}

/// A sale a news reaction asks for, from a flat or long position, is for at
/// least one share and at most the position.
proof fn lemma_news_sell_within_position(signals: Seq<NewsSignal>, i: int, position: int, max_position: u64)
    requires
        0 <= position <= u64::MAX,
    ensures
        match news_intent(signals, i, position, max_position) {
            Some((side, q)) => side == OrderSide::Sell ==> 0 < q <= position,
            None => true,
        },
    decreases signals.len() - i,
{
    if 0 <= i < signals.len() {
        lemma_news_sell_within_position(signals, i + 1, position, max_position);
        assert((position as u64) as int == position);
    }
}

/// Position guard: from a flat or long position, a sale the strategies
/// choose is for at least one share and never more than the position, given
/// threshold sellers sized at most the position (their size is the position
/// times a fraction of at most one).
pub proof fn lemma_sells_within_position(
    strategies: Seq<StrategyKind>,
    position: int,
    max_position: u64,
    fired: spec_fn(int) -> bool,
    numbers: Seq<StrategyNumbers>,
    k: int,
)
    requires
        numbers.len() == strategies.len(),
        0 <= position <= i64::MAX,
        forall|j: int| 0 <= j < strategies.len() && (#[trigger] strategies[j]) is ThresholdSeller
            ==> numbers[j].fraction_size <= position,
    ensures
        match first_intent(strategies, position, max_position, fired, numbers, k) {
            Some((side, q)) => side == OrderSide::Sell ==> 0 < q <= position,
            None => true,
        },
    decreases strategies.len() - k,
{
    if 0 <= k < strategies.len() {
        lemma_sells_within_position(strategies, position, max_position, fired, numbers, k + 1);
        lemma_news_sell_within_position(numbers[k].news@, 0, position, max_position);
        assert((position as u64) as int == position);
    }
}

/// Buying into a flat position and selling the same shares returns the
/// agent to flat with the strategy tracking cleared, and moves its cash by
/// the difference between the two trade values.
pub proof fn lemma_round_trip(v: ReactiveView, quantity: u64, buy_price: i64, sell_price: i64, t1: u64, t2: u64)
    requires
        v.position == 0,
        quantity > 0,
    ensures
        ({
            let after = v.after_fill(OrderSide::Buy, quantity, buy_price, t1).after_fill(OrderSide::Sell, quantity, sell_price, t2);
            &&& after.position == 0
            &&& after.cost_basis == 0
            &&& after.position_open_tick is None
            &&& after.high_water_mark == 0
            &&& after.low_water_mark == i64::MAX
            &&& v.after_fill(OrderSide::Buy, quantity, buy_price, t1).cost_basis == buy_price
        }),
{
    assert(trunc_div(buy_price * quantity, quantity as int) == buy_price) by (nonlinear_arith)
        requires
            quantity > 0,
    {
        if buy_price >= 0 {
            assert((buy_price * quantity) / (quantity as int) == buy_price);
        } else {
            assert((-(buy_price * quantity)) == (-buy_price) * quantity);
            assert(((-buy_price) * quantity) / (quantity as int) == -buy_price);
        }
    }
}

} // verus!
