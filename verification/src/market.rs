//! Core market value types: fixed-point prices and cash, share quantities,
//! identifiers, orders, symbol and short-selling configuration.
use vstd::prelude::*;

verus! {

/// Fixed-point scale shared by prices and cash amounts (four decimal places).
pub const PRICE_SCALE: i64 = 10_000;

/// Simulation time step.
pub type Tick = u64;

/// Ticker symbol of a traded instrument.
pub type Symbol = String;

/// A price in fixed-point units of `1 / PRICE_SCALE` dollars.
#[derive(Debug, Clone, Copy, PartialEq, Eq, Hash, Structural)]
pub struct Price(pub i64);

/// A number of shares.
#[derive(Debug, Clone, Copy, PartialEq, Eq, Hash, Structural)]
pub struct Quantity(pub u64);

/// A cash amount in the same fixed-point units as [`Price`].
#[derive(Debug, Clone, Copy, PartialEq, Eq, Hash, Structural)]
pub struct Cash(pub i64);

/// Identifier of a trading agent.
#[derive(Debug, Clone, Copy, PartialEq, Eq, Hash, Structural)]
pub struct AgentId(pub u64);

/// Identifier of an order.
#[derive(Debug, Clone, Copy, PartialEq, Eq, Hash, Structural)]
pub struct OrderId(pub u64);

impl View for AgentId {
    type V = u64;

    open spec fn view(&self) -> u64 {
        self.0
    }
}

impl Price {
    /// Raw fixed-point value.
    pub fn raw(self) -> (r: i64)
        ensures
            r == self.0,
    {
        self.0
    }

    /// A whole-dollar price.
    pub fn from_dollars(dollars: i64) -> (p: Price)
        requires
            i64::MIN <= dollars * PRICE_SCALE <= i64::MAX,
        ensures
            p.0 == dollars * PRICE_SCALE,
    {
        Price(dollars * PRICE_SCALE)
    }

    /// Notional value of `quantity` shares at this price.
    pub fn mul_quantity(self, quantity: Quantity) -> (c: Cash)
        requires
            quantity.0 <= i64::MAX,
            i64::MIN <= self.0 * quantity.0 <= i64::MAX,
        ensures
            c.0 == self.0 * quantity.0,
    {
        let q = quantity.0 as i64;
        Cash(self.0 * q)
    }
}

impl Quantity {
    /// No shares.
    pub fn zero() -> (q: Quantity)
        ensures
            q.0 == 0,
    {
        Quantity(0)
    }

    /// Raw share count.
    pub fn raw(self) -> (r: u64)
        ensures
            r == self.0,
    {
        self.0
    }

    /// True when the quantity is zero.
    pub fn is_zero(self) -> (b: bool)
        ensures
            b == (self.0 == 0),
    {
        self.0 == 0
    }

    /// Subtraction clamped at zero.
    pub fn saturating_sub(self, other: Quantity) -> (r: Quantity)
        ensures
            r.0 == (if self.0 >= other.0 { self.0 - other.0 } else { 0 }),
    {
        if self.0 >= other.0 {
            Quantity(self.0 - other.0)
        } else {
            Quantity(0)
        }
    }

    /// The smaller of two quantities.
    pub fn min(self, other: Quantity) -> (r: Quantity)
        ensures
            r.0 == (if self.0 <= other.0 { self.0 } else { other.0 }),
    {
        if self.0 <= other.0 {
            self
        } else {
            other
        }
    }
}

impl Cash {
    /// No cash.
    pub fn zero() -> (c: Cash)
        ensures
            c.0 == 0,
    {
        Cash(0)
    }

    /// Raw fixed-point value.
    pub fn raw(self) -> (r: i64)
        ensures
            r == self.0,
    {
        self.0
    }

    /// A whole-dollar cash amount.
    pub fn from_dollars(dollars: i64) -> (c: Cash)
        requires
            i64::MIN <= dollars * PRICE_SCALE <= i64::MAX,
        ensures
            c.0 == dollars * PRICE_SCALE,
    {
        Cash(dollars * PRICE_SCALE)
    }
}

/// Side of an order.
#[derive(Debug, Clone, Copy, PartialEq, Eq, Hash, Structural)]
pub enum OrderSide {
    Buy,
    Sell,
}

/// Order type: market orders carry no price, limit orders carry their limit.
#[derive(Debug, Clone, Copy, PartialEq, Eq, Structural)]
pub enum OrderType {
    Market,
    Limit { price: Price },
}

/// Lifecycle status of an order.
#[derive(Debug, Clone, Copy, PartialEq, Eq, Structural)]
pub enum OrderStatus {
    Pending,
    PartiallyFilled,
    Filled,
    Cancelled,
}

/// An order submitted by an agent.
#[derive(Debug, Clone)]
pub struct Order {
    pub id: OrderId,
    pub agent_id: AgentId,
    pub symbol: Symbol,
    pub side: OrderSide,
    pub order_type: OrderType,
    pub quantity: Quantity,
    pub remaining_quantity: Quantity,
    pub timestamp: Tick,
    pub latency_ticks: u64,
    pub status: OrderStatus,
}

impl Order {
    /// A new pending limit order.
    pub fn limit(agent_id: AgentId, symbol: &str, side: OrderSide, price: Price, quantity: Quantity) -> (o: Order)
        ensures
            o.id == OrderId(0),
            o.agent_id == agent_id,
            o.symbol@ == symbol@,
            o.side == side,
            o.order_type == (OrderType::Limit { price }),
            o.quantity == quantity,
            o.remaining_quantity == quantity,
            o.timestamp == 0,
            o.latency_ticks == 0,
            o.status == OrderStatus::Pending,
    {
        Order {
            id: OrderId(0),
            agent_id,
            symbol: symbol.to_owned(),
            side,
            order_type: OrderType::Limit { price },
            quantity,
            remaining_quantity: quantity,
            timestamp: 0,
            latency_ticks: 0,
            status: OrderStatus::Pending,
        }
    }

    /// A new pending market order.
    pub fn market(agent_id: AgentId, symbol: &str, side: OrderSide, quantity: Quantity) -> (o: Order)
        ensures
            o.id == OrderId(0),
            o.agent_id == agent_id,
            o.symbol@ == symbol@,
            o.side == side,
            o.order_type == OrderType::Market,
            o.quantity == quantity,
            o.remaining_quantity == quantity,
            o.timestamp == 0,
            o.latency_ticks == 0,
            o.status == OrderStatus::Pending,
    {
        Order {
            id: OrderId(0),
            agent_id,
            symbol: symbol.to_owned(),
            side,
            order_type: OrderType::Market,
            quantity,
            remaining_quantity: quantity,
            timestamp: 0,
            latency_ticks: 0,
            status: OrderStatus::Pending,
        }
    }

    /// The limit price, if this is a limit order.
    pub fn limit_price(&self) -> (r: Option<Price>)
        ensures
            r == (match self.order_type {
                OrderType::Limit { price } => Some(price),
                OrderType::Market => None::<Price>,
            }),
    {
        match self.order_type {
            OrderType::Limit { price } => Some(price),
            OrderType::Market => None,
        }
    }
}

/// Why an order was rejected by position limits.
#[derive(Debug, Clone, Copy, PartialEq, Eq, Structural)]
pub enum RiskViolation {
    InsufficientCash,
    InsufficientShares,
    ShortSellingDisabled,
    ShortLimitExceeded,
    NoBorrowAvailable,
}

/// Static configuration of one traded symbol.
#[derive(Debug, Clone)]
pub struct SymbolConfig {
    pub symbol: Symbol,
    /// Total shares in existence; aggregate long positions cannot exceed it.
    pub shares_outstanding: Quantity,
    pub initial_price: Price,
}

impl SymbolConfig {
    /// A symbol configuration.
    pub fn new(symbol: &str, shares_outstanding: Quantity, initial_price: Price) -> (c: SymbolConfig)
        ensures
            c.symbol@ == symbol@,
            c.shares_outstanding == shares_outstanding,
            c.initial_price == initial_price,
    {
        SymbolConfig { symbol: symbol.to_owned(), shares_outstanding, initial_price }
    }
}

impl Default for SymbolConfig {
    /// Symbol "SIM" with one million shares outstanding at $100.
    fn default() -> (c: SymbolConfig)
        ensures
            c.symbol@ == "SIM"@,
            c.shares_outstanding == Quantity(1_000_000),
            c.initial_price.0 == 100 * PRICE_SCALE,
    {
        SymbolConfig {
            symbol: "SIM".to_owned(),
            shares_outstanding: Quantity(1_000_000),
            initial_price: Price(100 * PRICE_SCALE),
        }
    }
}

/// Short-selling rules.
#[derive(Debug, Clone, Copy, PartialEq, Eq, Structural)]
pub struct ShortSellingConfig {
    /// Whether short sales are allowed at all.
    pub enabled: bool,
    /// Largest short position one agent may hold (0 = no per-agent cap).
    pub max_short_per_agent: Quantity,
    /// Whether a short sale needs shares located in the borrow pool.
    pub locate_required: bool,
    /// Annual borrow cost in basis points.
    pub borrow_rate_bps: u32,
}

impl ShortSellingConfig {
    /// Short selling forbidden.
    pub fn disabled() -> (c: ShortSellingConfig)
        ensures
            !c.enabled,
            c.max_short_per_agent == Quantity(0),
            !c.locate_required,
            c.borrow_rate_bps == 0,
    {
        ShortSellingConfig { enabled: false, max_short_per_agent: Quantity(0), locate_required: false, borrow_rate_bps: 0 }
    }

    /// Short selling allowed with a locate requirement and a 10,000-share cap.
    pub fn enabled_default() -> (c: ShortSellingConfig)
        ensures
            c.enabled,
            c.max_short_per_agent == Quantity(10_000),
            c.locate_required,
            c.borrow_rate_bps == 50,
    {
        ShortSellingConfig { enabled: true, max_short_per_agent: Quantity(10_000), locate_required: true, borrow_rate_bps: 50 }
    }

    /// The same rules with another per-agent short cap.
    pub fn with_max_short(self, max_short: Quantity) -> (c: ShortSellingConfig)
        ensures
            c == (ShortSellingConfig { max_short_per_agent: max_short, ..self }),
    {
        ShortSellingConfig { max_short_per_agent: max_short, ..self }
    }

    /// The same rules with the locate requirement set.
    pub fn with_locate_required(self, required: bool) -> (c: ShortSellingConfig)
        ensures
            c == (ShortSellingConfig { locate_required: required, ..self }),
    {
        ShortSellingConfig { locate_required: required, ..self }
    }
}

/// Identifier of an executed trade.
#[derive(Debug, Clone, Copy, PartialEq, Eq, Hash, Structural)]
pub struct TradeId(pub u64);

/// An executed trade between a buyer and a seller.
#[derive(Debug, Clone)]
pub struct Trade {
    pub id: TradeId,
    pub symbol: Symbol,
    pub buyer_id: AgentId,
    pub seller_id: AgentId,
    pub buyer_order_id: OrderId,
    pub seller_order_id: OrderId,
    pub price: Price,
    pub quantity: Quantity,
    pub timestamp: u64,
    pub tick: Tick,
}

impl Trade {
    /// Notional value of the trade: price times quantity.
    pub fn value(&self) -> (c: Cash)
        requires
            self.quantity.0 <= i64::MAX,
            i64::MIN <= self.price.0 * self.quantity.0 <= i64::MAX,
        ensures
            c.0 == self.price.0 * self.quantity.0,
    {
        self.price.mul_quantity(self.quantity)
    }
}

/// Industry sector of a symbol.
#[derive(Debug, Clone, Copy, PartialEq, Eq, Hash, Structural)]
pub enum Sector {
    Tech,
    Healthcare,
    Finance,
    Energy,
    Consumer,
    Industrials,
    Utilities,
    Materials,
    RealEstate,
    Communications,
}

impl Sector {
    /// Every sector, in declaration order.
    pub fn all() -> (v: Vec<Sector>)
        ensures
            v@ == seq![
                Sector::Tech, Sector::Healthcare, Sector::Finance, Sector::Energy,
                Sector::Consumer, Sector::Industrials, Sector::Utilities, Sector::Materials,
                Sector::RealEstate, Sector::Communications,
            ],
    {
        vec![
            Sector::Tech, Sector::Healthcare, Sector::Finance, Sector::Energy,
            Sector::Consumer, Sector::Industrials, Sector::Utilities, Sector::Materials,
            Sector::RealEstate, Sector::Communications,
        ]
    }
}

} // verus!
