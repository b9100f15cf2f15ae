//! Position limits validation for order submission.
//!
//! Orders are checked against four constraints before they reach the
//! matching engine:
//!
//! 1. **Cash sufficiency**: a limit buy must be affordable.
//! 2. **Shares outstanding**: aggregate long positions cannot exceed the
//!    shares in existence.
//! 3. **Short limit per agent**: short positions are capped (unless exempt).
//! 4. **Borrow availability**: short sales need located shares when a
//!    locate is required.
use vstd::prelude::*;

use crate::borrow_ledger::BorrowLedger;
use crate::market::{
    AgentId, Cash, Order, OrderSide, OrderType, Price, Quantity, RiskViolation, ShortSellingConfig,
    SymbolConfig, PRICE_SCALE,
};

verus! {

/// Position after the order fills completely.
pub open spec fn projected_position(side: OrderSide, current_position: i64, quantity: u64) -> int {
    match side {
        OrderSide::Buy => current_position + quantity,
        OrderSide::Sell => current_position - quantity,
    }
}

/// Size of the short side of a position (zero for a flat or long position).
pub open spec fn short_size(position: int) -> int {
    if position < 0 {
        -position
    } else {
        0
    }
}

/// `a - b` clamped at zero.
pub open spec fn sat_sub(a: int, b: int) -> int {
    if a >= b {
        a - b
    } else {
        0
    }
}

/// Validates orders against position limits and constraints.
#[derive(Debug, Clone)]
pub struct PositionValidator {
    /// Symbol configuration with shares_outstanding.
    symbol_config: SymbolConfig,
    /// Short-selling rules.
    short_config: ShortSellingConfig,
}

impl PositionValidator {
    /// The symbol configuration.
    pub closed spec fn symbol_cfg(self) -> SymbolConfig {
        self.symbol_config
    }

    /// The short-selling rules.
    pub closed spec fn short_cfg(self) -> ShortSellingConfig {
        self.short_config
    }

    /// Verdict on a buy order: a limit buy must be affordable, and a fill that
    /// leaves the agent long must not push aggregate holdings past the shares
    /// outstanding.
    pub open spec fn buy_verdict(self, order: Order, current_cash: Cash, total_held: Quantity, projected: int) -> Result<(), RiskViolation> {
        if order.order_type matches OrderType::Limit { price } && price.0 * order.quantity.0 > current_cash.0 {
            Err(RiskViolation::InsufficientCash)
        } else if projected > 0 && total_held.0 + order.quantity.0 > self.symbol_cfg().shares_outstanding.0 {
            Err(RiskViolation::InsufficientShares)
        } else {
            Ok(())
        }
    }

    /// Shares that must still be located for a short sale: the growth of the
    /// short position beyond what the agent already holds short or has borrowed.
    pub open spec fn borrow_needed(current_position: i64, projected: int, already_borrowed: int) -> int {
        sat_sub(sat_sub(short_size(projected), short_size(current_position as int)), already_borrowed)
    }

    /// Verdict on a sell order: only a sale that leaves the agent short is
    /// restricted, by the enabled flag, the per-agent cap and the borrow pool.
    pub open spec fn sell_verdict(
        self,
        order: Order,
        current_position: i64,
        projected: int,
        ledger: BorrowLedger,
        exempt_from_short_limit: bool,
    ) -> Result<(), RiskViolation> {
        let cfg = self.short_cfg();
        if projected >= 0 {
            Ok(())
        } else if !cfg.enabled {
            Err(RiskViolation::ShortSellingDisabled)
        } else if !exempt_from_short_limit && cfg.max_short_per_agent.0 > 0 && -projected > cfg.max_short_per_agent.0 {
            Err(RiskViolation::ShortLimitExceeded)
        } else if cfg.locate_required && Self::borrow_needed(
            current_position,
            projected,
            ledger.borrowed_qty(order.agent_id.0, order.symbol@),
        ) > ledger.pool(order.symbol@) {
            Err(RiskViolation::NoBorrowAvailable)
        } else {
            Ok(())
        }
    }

    /// Verdict on any order.
    pub open spec fn verdict(
        self,
        order: Order,
        current_position: i64,
        current_cash: Cash,
        ledger: BorrowLedger,
        total_held: Quantity,
        exempt_from_short_limit: bool,
    ) -> Result<(), RiskViolation> {
        let projected = projected_position(order.side, current_position, order.quantity.0);
        match order.side {
            OrderSide::Buy => self.buy_verdict(order, current_cash, total_held, projected),
            OrderSide::Sell => self.sell_verdict(order, current_position, projected, ledger, exempt_from_short_limit),
        }
    }

    /// Create a new position validator with the given configurations.
    pub fn new(symbol_config: SymbolConfig, short_config: ShortSellingConfig) -> (v: PositionValidator)
        ensures
            v.symbol_cfg() == symbol_config,
            v.short_cfg() == short_config,
    {
        PositionValidator { symbol_config, short_config }
    }

    /// A validator with the default symbol and short selling disabled.
    pub fn with_defaults() -> (v: PositionValidator)
        ensures
            v.symbol_cfg().symbol@ == "SIM"@,
            v.symbol_cfg().shares_outstanding == Quantity(1_000_000),
            v.symbol_cfg().initial_price.0 == 100 * PRICE_SCALE,
            v.short_cfg() == (ShortSellingConfig {
                enabled: false,
                max_short_per_agent: Quantity(0),
                locate_required: false,
                borrow_rate_bps: 0,
            }),
    {
        Self::new(SymbolConfig::default(), ShortSellingConfig::disabled())
    }

    /// The symbol configuration.
    pub fn symbol_config(&self) -> (c: &SymbolConfig)
        ensures
            *c == self.symbol_cfg(),
    {
        &self.symbol_config
    }

    /// The short-selling rules.
    pub fn short_config(&self) -> (c: &ShortSellingConfig)
        ensures
            *c == self.short_cfg(),
    {
        &self.short_config
    }

    /// Validate an order against position limits.
    ///
    /// `current_position` is positive when long and negative when short;
    /// `total_held` is the sum of all agents' long positions in the symbol;
    /// `exempt_from_short_limit` skips the per-agent cap (market makers).
    pub fn validate_order(
        &self,
        order: &Order,
        current_position: i64,
        current_cash: Cash,
        borrow_ledger: &BorrowLedger,
        total_held: Quantity,
        exempt_from_short_limit: bool,
    ) -> (r: Result<(), RiskViolation>)
        requires
            borrow_ledger.wf(),
            order.quantity.0 <= i64::MAX,
            i64::MIN < projected_position(order.side, current_position, order.quantity.0) <= i64::MAX,
            current_position > i64::MIN,
            order.side == OrderSide::Buy ==> total_held.0 + order.quantity.0 <= u64::MAX,
            order.side == OrderSide::Buy ==> (order.order_type matches OrderType::Limit { price }
                ==> i64::MIN <= price.0 * order.quantity.0 <= i64::MAX),
        ensures
            r == self.verdict(*order, current_position, current_cash, *borrow_ledger, total_held, exempt_from_short_limit),
    {
        let order_qty = order.quantity.0 as i64;
        let projected = match order.side {
            OrderSide::Buy => current_position + order_qty,
            OrderSide::Sell => current_position - order_qty,
        };
        match order.side {
            OrderSide::Buy => self.validate_buy(order, current_cash, total_held, projected),
            OrderSide::Sell => self.validate_sell(order, current_position, projected, borrow_ledger, exempt_from_short_limit),
        }
    }

    /// Validate a buy order.
    fn validate_buy(&self, order: &Order, current_cash: Cash, total_held: Quantity, projected_position: i64) -> (r: Result<(), RiskViolation>)
        requires
            order.quantity.0 <= i64::MAX,
            total_held.0 + order.quantity.0 <= u64::MAX,
            order.order_type matches OrderType::Limit { price } ==> i64::MIN <= price.0 * order.quantity.0 <= i64::MAX,
        ensures
            r == self.buy_verdict(*order, current_cash, total_held, projected_position as int),
    {
        if let Some(price) = order.limit_price() {
            let cost = price.mul_quantity(order.quantity);
            if cost.0 > current_cash.0 {
                return Err(RiskViolation::InsufficientCash);
            }
        }
        if projected_position > 0 {
            let new_total = total_held.0 + order.quantity.0;
            if new_total > self.symbol_config.shares_outstanding.0 {
                return Err(RiskViolation::InsufficientShares);
            }
        }
        Ok(())
    }

    /// Validate a sell order.
    fn validate_sell(
        &self,
        order: &Order,
        current_position: i64,
        projected_position: i64,
        borrow_ledger: &BorrowLedger,
        exempt_from_short_limit: bool,
    ) -> (r: Result<(), RiskViolation>)
        requires
            borrow_ledger.wf(),
            projected_position > i64::MIN,
            current_position > i64::MIN,
        ensures
            r == self.sell_verdict(*order, current_position, projected_position as int, *borrow_ledger, exempt_from_short_limit),
    {
        if projected_position < 0 {
            if !self.short_config.enabled {
                return Err(RiskViolation::ShortSellingDisabled);
            }
            let short_size = (-projected_position) as u64;
            if !exempt_from_short_limit && self.short_config.max_short_per_agent.0 > 0
                && short_size > self.short_config.max_short_per_agent.0 {
                return Err(RiskViolation::ShortLimitExceeded);
            }
            if self.short_config.locate_required {
                let current_short: u64 = if current_position < 0 {
                    (-current_position) as u64
                } else {
                    0
                };
                let additional_borrow = if short_size >= current_short {
                    short_size - current_short
                } else {
                    0
                };
                let already_borrowed = borrow_ledger.borrowed(order.agent_id, order.symbol.as_str()).0;
                let additional_needed = if additional_borrow >= already_borrowed {
                    additional_borrow - already_borrowed
                } else {
                    0
                };
                if additional_needed > 0 {
                    let available = borrow_ledger.available(order.symbol.as_str()).0;
                    if additional_needed > available {
                        return Err(RiskViolation::NoBorrowAvailable);
                    }
                }
            }
        }
        Ok(())
    }

    /// Largest quantity buyable at `price` given cash and the shares still unheld.
    ///
    /// The cash limit is the truncated quotient of cash by price taken as an
    /// unsigned count, so a negative cash balance wraps around and leaves the
    /// shares-outstanding limit in force.
    pub open spec fn max_buyable_spec(self, price: Price, current_cash: Cash, total_held: Quantity) -> int {
        if price.0 <= 0 {
            0
        } else {
            let c = current_cash.0 as int;
            let p = price.0 as int;
            let quotient: int = if c >= 0 {
                c / p
            } else {
                -((-c) / p)
            };
            let cash_limited: int = if quotient >= 0 { quotient } else { quotient + 0x1_0000_0000_0000_0000 };
            let shares_limited = sat_sub(self.symbol_cfg().shares_outstanding.0 as int, total_held.0 as int);
            if cash_limited <= shares_limited { cash_limited } else { shares_limited }
        }
    }

    /// Estimate the maximum quantity an agent can buy given their cash and current state.
    pub fn max_buyable(&self, price: Price, current_cash: Cash, total_held: Quantity) -> (q: Quantity)
        ensures
            q.0 == self.max_buyable_spec(price, current_cash, total_held),
    {
        if price.0 <= 0 {
            return Quantity(0);
        }
        let p = price.0 as u64;
        let cash_limited: u64 = if current_cash.0 >= 0 {
            (current_cash.0 as u64) / p
        } else {
            let magnitude: u64 = if current_cash.0 == i64::MIN {
                0x8000_0000_0000_0000u64
            } else {
                (-current_cash.0) as u64
            };
            let m = magnitude / p;
            if m == 0 {
                0
            } else {
                u64::MAX - m + 1
            }
        };
        let shares_limited = if self.symbol_config.shares_outstanding.0 >= total_held.0 {
            self.symbol_config.shares_outstanding.0 - total_held.0
        } else {
            0
        };
        if cash_limited <= shares_limited {
            Quantity(cash_limited)
        } else {
            Quantity(shares_limited)
        }
    }

    /// Largest short sale available: remaining short capacity (capped by
    /// located shares when a locate is required) plus the long position,
    /// which can be sold first.
    pub open spec fn max_shortable_spec(self, current_position: i64, ledger: BorrowLedger, symbol: Seq<char>) -> int {
        let cfg = self.short_cfg();
        if !cfg.enabled {
            0
        } else {
            let limit_remaining = sat_sub(cfg.max_short_per_agent.0 as int, short_size(current_position as int));
            let borrow_available: int = if cfg.locate_required {
                ledger.pool(symbol) + ledger.borrowed_qty(0, symbol)
            } else {
                u64::MAX as int
            };
            let capped = if limit_remaining <= borrow_available { limit_remaining } else { borrow_available };
            capped + (if current_position > 0 { current_position as int } else { 0 })
        }
    }

    /// Estimate the maximum quantity an agent can short given constraints.
    ///
    /// The located shares are counted as the pool plus what the agent with
    /// id 0 has borrowed.
    pub fn max_shortable(&self, current_position: i64, borrow_ledger: &BorrowLedger, symbol: &str) -> (q: Quantity)
        requires
            borrow_ledger.wf(),
            current_position > i64::MIN,
            self.max_shortable_spec(current_position, *borrow_ledger, symbol@) <= u64::MAX,
        ensures
            q.0 == self.max_shortable_spec(current_position, *borrow_ledger, symbol@),
    {
        if !self.short_config.enabled {
            return Quantity(0);
        }
        let current_short: u64 = if current_position < 0 {
            (-current_position) as u64
        } else {
            0
        };
        let limit_remaining = if self.short_config.max_short_per_agent.0 >= current_short {
            self.short_config.max_short_per_agent.0 - current_short
        } else {
            0
        };
        let borrow_available: u64 = if self.short_config.locate_required {
            proof {
                borrow_ledger.lemma_borrowed_within_total(0, symbol@);
            }
            let already_borrowed = borrow_ledger.borrowed(AgentId(0), symbol).0;
            borrow_ledger.available(symbol).0 + already_borrowed
        } else {
            u64::MAX
        };
        let can_sell_long: u64 = if current_position > 0 {
            current_position as u64
        } else {
            0
        };
        let capped = if limit_remaining <= borrow_available {
            limit_remaining
        } else {
            borrow_available
        };
        Quantity(capped + can_sell_long)
    }
}

/// An accepted order respects the four constraints: a limit buy is
/// affordable; a buy that leaves the agent long keeps aggregate holdings
/// within the shares outstanding; a sale that leaves the agent short happens
/// only with short selling enabled, within the per-agent cap unless exempt,
/// and, when a locate is required, with enough shares in the borrow pool.
pub proof fn lemma_accepted_orders_respect_limits(
    v: PositionValidator,
    order: Order,
    current_position: i64,
    current_cash: Cash,
    ledger: BorrowLedger,
    total_held: Quantity,
    exempt_from_short_limit: bool,
)
    requires
        v.verdict(order, current_position, current_cash, ledger, total_held, exempt_from_short_limit) is Ok,
    ensures
        ({
            let projected = projected_position(order.side, current_position, order.quantity.0);
            let cfg = v.short_cfg();
            &&& order.side == OrderSide::Buy ==> (order.order_type matches OrderType::Limit { price }
                ==> price.0 * order.quantity.0 <= current_cash.0)
            &&& order.side == OrderSide::Buy && projected > 0
                ==> total_held.0 + order.quantity.0 <= v.symbol_cfg().shares_outstanding.0
            &&& order.side == OrderSide::Sell && projected < 0 ==> cfg.enabled
            &&& order.side == OrderSide::Sell && projected < 0 && !exempt_from_short_limit && cfg.max_short_per_agent.0 > 0
                ==> -projected <= cfg.max_short_per_agent.0
            &&& order.side == OrderSide::Sell && projected < 0 && cfg.locate_required
                ==> PositionValidator::borrow_needed(
                    current_position,
                    projected,
                    ledger.borrowed_qty(order.agent_id.0, order.symbol@),
                ) <= ledger.pool(order.symbol@)
        }),
{
}

/// `max_buyable` is the largest buy the validator accepts from a flat
/// position: with a positive price and non-negative cash, when it is
/// positive, a limit buy of that many shares at that price is accepted and
/// a limit buy of one share more is refused.
pub proof fn lemma_max_buyable_is_largest(
    v: PositionValidator,
    price: Price,
    current_cash: Cash,
    total_held: Quantity,
    order: Order,
    ledger: BorrowLedger,
    exempt_from_short_limit: bool,
)
    requires
        price.0 > 0,
        current_cash.0 >= 0,
        order.side == OrderSide::Buy,
        order.order_type == (OrderType::Limit { price }),
        v.max_buyable_spec(price, current_cash, total_held) > 0,
    ensures
        order.quantity.0 == v.max_buyable_spec(price, current_cash, total_held)
            ==> v.verdict(order, 0, current_cash, ledger, total_held, exempt_from_short_limit) is Ok,
        order.quantity.0 == v.max_buyable_spec(price, current_cash, total_held) + 1
            ==> v.verdict(order, 0, current_cash, ledger, total_held, exempt_from_short_limit) is Err,
{
    let c = current_cash.0 as int;
    let p = price.0 as int;
    let q = c / p;
    assert(p * q <= c && c < p * (q + 1)) by (nonlinear_arith)
        requires
            p > 0,
            c >= 0,
            q == c / p,
    ;
    let m = v.max_buyable_spec(price, current_cash, total_held);
    assert(m <= q);
    assert(p * m <= p * q) by (nonlinear_arith)
        requires
            p > 0,
            m <= q,
    ;
    assert(p * (m + 1) == p * m + p) by (nonlinear_arith);
}

/// Selling out of a long position, down to flat at most, is never a short
/// sale: it is accepted whatever the short-selling rules, the borrow ledger
/// and the exemption flag; a sale that would leave the agent short is
/// refused when short selling is disabled.
pub proof fn lemma_sell_within_long_position_accepted(
    v: PositionValidator,
    order: Order,
    current_position: i64,
    current_cash: Cash,
    ledger: BorrowLedger,
    total_held: Quantity,
    exempt_from_short_limit: bool,
)
    requires
        order.side == OrderSide::Sell,
    ensures
        order.quantity.0 <= current_position
            ==> v.verdict(order, current_position, current_cash, ledger, total_held, exempt_from_short_limit) == Ok::<(), RiskViolation>(()),
        order.quantity.0 > current_position && !v.short_cfg().enabled
            ==> v.verdict(order, current_position, current_cash, ledger, total_held, exempt_from_short_limit)
                == Err::<(), RiskViolation>(RiskViolation::ShortSellingDisabled),
{
}

} // verus!
