//! Aggregate P&L tracking for the background pool's sanity checks.
//!
//! The pool does not track individual agents; it records, per symbol, the
//! volume and value it bought and sold, from which realized P&L, notional
//! volume and volume-weighted average prices follow.
use vstd::prelude::*;

use crate::assoc_map::{AssocMap, lemma_sum_prefix, lemma_sum_push, lemma_sum_update, sum_by};
use crate::market::{Cash, Price, Quantity, Symbol};

verus! {

/// Per-symbol accounting data.
#[derive(Debug, Clone, Copy, PartialEq, Eq, Structural)]
pub struct SymbolAccounting {
    /// Total shares bought.
    pub buy_volume: u64,
    /// Total value of buys (raw price units times quantity).
    pub buy_value: i64,
    /// Total shares sold.
    pub sell_volume: u64,
    /// Total value of sells.
    pub sell_value: i64,
}

/// Absolute value.
pub open spec fn abs(x: int) -> int {
    if x >= 0 {
        x
    } else {
        -x
    }
}

/// Rust's truncating integer division of `a` by a positive `b`.
pub open spec fn trunc_div(a: int, b: int) -> int {
    if a >= 0 {
        a / b
    } else {
        -((-a) / b)
    }
}

/// Realized P&L contribution of one symbol.
pub open spec fn entry_pnl() -> spec_fn(SymbolAccounting) -> int {
    |r: SymbolAccounting| r.sell_value - r.buy_value
}

/// Notional contribution of one symbol.
pub open spec fn entry_notional() -> spec_fn(SymbolAccounting) -> int {
    |r: SymbolAccounting| abs(r.buy_value as int) + abs(r.sell_value as int)
}

/// Bought shares of one symbol.
pub open spec fn entry_buy_volume() -> spec_fn(SymbolAccounting) -> int {
    |r: SymbolAccounting| r.buy_volume as int
}

/// Sold shares of one symbol.
pub open spec fn entry_sell_volume() -> spec_fn(SymbolAccounting) -> int {
    |r: SymbolAccounting| r.sell_volume as int
}

/// A per-record function applied to a stored pair.
pub open spec fn lift(f: spec_fn(SymbolAccounting) -> int) -> spec_fn((Symbol, SymbolAccounting)) -> int {
    |e: (Symbol, SymbolAccounting)| f(e.1)
}

/// The record of a symbol that was never traded.
pub open spec fn zero_record() -> SymbolAccounting {
    SymbolAccounting { buy_volume: 0, buy_value: 0, sell_volume: 0, sell_value: 0 }
}

/// A sum is bounded in absolute value by the sum of bounds of its terms.
pub proof fn lemma_sum_abs_bound<A>(s: Seq<A>, f: spec_fn(A) -> int, g: spec_fn(A) -> int)
    requires
        forall|j: int| 0 <= j < s.len() ==> abs(f(#[trigger] s[j])) <= g(s[j]),
    ensures
        abs(sum_by(s, f)) <= sum_by(s, g),
    decreases s.len(),
{
    if s.len() > 0 {
        assert forall|j: int| 0 <= j < s.drop_last().len() implies abs(f(#[trigger] s.drop_last()[j])) <= g(s.drop_last()[j]) by {
            assert(s.drop_last()[j] == s[j]);
        }
        lemma_sum_abs_bound(s.drop_last(), f, g);
    }
}

/// Result of a sanity check.
#[derive(Debug, Clone, Copy)]
pub struct SanityCheckResult {
    /// Whether the check passed.
    pub passed: bool,
    /// Actual realized P&L.
    pub pnl: Cash,
    /// Maximum acceptable loss.
    pub threshold: Cash,
    /// Total buy volume.
    pub buy_volume: u64,
    /// Total sell volume.
    pub sell_volume: u64,
}

/// Per-symbol statistics.
#[derive(Debug, Clone, Copy)]
pub struct SymbolStats {
    /// Total shares bought.
    pub buy_volume: Quantity,
    /// Volume-weighted average buy price.
    pub vwap_buy: Price,
    /// Total shares sold.
    pub sell_volume: Quantity,
    /// Volume-weighted average sell price.
    pub vwap_sell: Price,
}

/// Aggregate accounting for background pool fills.
#[derive(Debug)]
pub struct BackgroundPoolAccounting {
    /// Per-symbol tracking.
    per_symbol: AssocMap<Symbol, SymbolAccounting>,
    /// Total orders generated (for diagnostics).
    total_orders_generated: u64,
}

impl BackgroundPoolAccounting {
    /// Per-symbol records.
    pub closed spec fn records(self) -> Map<Seq<char>, SymbolAccounting> {
        self.per_symbol.map()
    }

    /// The record of a symbol (all zero when the symbol was never traded).
    pub open spec fn record_of(self, s: Seq<char>) -> SymbolAccounting {
        if self.records().contains_key(s) {
            self.records()[s]
        } else {
            zero_record()
        }
    }

    /// Orders generated so far.
    pub closed spec fn orders_generated(self) -> u64 {
        self.total_orders_generated
    }

    /// Sum of a per-symbol quantity over all records.
    pub closed spec fn total_of(self, f: spec_fn(SymbolAccounting) -> int) -> int {
        sum_by(self.per_symbol.pairs(), lift(f))
    }

    /// Realized P&L: total sell value minus total buy value.
    pub open spec fn pnl(self) -> int {
        self.total_of(entry_pnl())
    }

    /// Notional volume: total of absolute buy and sell values.
    pub open spec fn notional(self) -> int {
        self.total_of(entry_notional())
    }

    pub closed spec fn wf(self) -> bool {
        self.per_symbol.wf()
    }

    /// Create a new accounting instance.
    pub fn new() -> (a: BackgroundPoolAccounting)
        ensures
            a.wf(),
            a.records() == Map::<Seq<char>, SymbolAccounting>::empty(),
            a.orders_generated() == 0,
            a.pnl() == 0,
            a.notional() == 0,
            forall|f: spec_fn(SymbolAccounting) -> int| #[trigger] a.total_of(f) == 0,
    {
        BackgroundPoolAccounting { per_symbol: AssocMap::new(), total_orders_generated: 0 }
    }

    /// Record orders generated this tick.
    pub fn record_orders_generated(&mut self, count: usize)
        requires
            old(self).orders_generated() + count <= u64::MAX,
        ensures
            final(self).orders_generated() == old(self).orders_generated() + count,
            final(self).records() == old(self).records(),
            final(self).wf() == old(self).wf(),
            forall|f: spec_fn(SymbolAccounting) -> int| #[trigger] final(self).total_of(f) == old(self).total_of(f),
    {
        self.total_orders_generated = self.total_orders_generated + count as u64;
    }

    /// Total orders generated.
    pub fn total_orders_generated(&self) -> (n: u64)
        ensures
            n == self.orders_generated(),
    {
        self.total_orders_generated
    }

    /// Add a fill to one symbol's record; `buy` selects the side.
    fn record_trade(&mut self, symbol: &Symbol, price: Price, quantity: Quantity, buy: bool)
        requires
            old(self).wf(),
            quantity.0 <= i64::MAX,
            i64::MIN <= price.0 * quantity.0 <= i64::MAX,
            buy ==> old(self).record_of(symbol@).buy_volume + quantity.0 <= u64::MAX,
            buy ==> i64::MIN <= old(self).record_of(symbol@).buy_value + price.0 * quantity.0 <= i64::MAX,
            !buy ==> old(self).record_of(symbol@).sell_volume + quantity.0 <= u64::MAX,
            !buy ==> i64::MIN <= old(self).record_of(symbol@).sell_value + price.0 * quantity.0 <= i64::MAX,
        ensures
            final(self).wf(),
            final(self).orders_generated() == old(self).orders_generated(),
            final(self).records() == old(self).records().insert(symbol@, {
                let r = old(self).record_of(symbol@);
                if buy {
                    SymbolAccounting {
                        buy_volume: (r.buy_volume + quantity.0) as u64,
                        buy_value: (r.buy_value + price.0 * quantity.0) as i64,
                        ..r
                    }
                } else {
                    SymbolAccounting {
                        sell_volume: (r.sell_volume + quantity.0) as u64,
                        sell_value: (r.sell_value + price.0 * quantity.0) as i64,
                        ..r
                    }
                }
            }),
            forall|f: spec_fn(SymbolAccounting) -> int| f(zero_record()) == 0 ==> #[trigger] final(self).total_of(f)
                == old(self).total_of(f) - f(old(self).record_of(symbol@)) + f(final(self).records()[symbol@]),
    {
        let value = price.mul_quantity(quantity);
        let cur = match self.per_symbol.get(symbol) {
            Some(acc) => *acc,
            None => SymbolAccounting { buy_volume: 0, buy_value: 0, sell_volume: 0, sell_value: 0 },
        };
        let updated = if buy {
            SymbolAccounting { buy_volume: cur.buy_volume + quantity.0, buy_value: cur.buy_value + value.0, ..cur }
        } else {
            SymbolAccounting { sell_volume: cur.sell_volume + quantity.0, sell_value: cur.sell_value + value.0, ..cur }
        };
        let ghost old_map = self.per_symbol;
        self.per_symbol.insert(symbol.clone(), updated);
        proof {
            old_map.lemma_pairs_in_map();
            assert forall|f: spec_fn(SymbolAccounting) -> int| f(zero_record()) == 0 implies #[trigger] self.total_of(f)
                == old(self).total_of(f) - f(old(self).record_of(symbol@)) + f(self.records()[symbol@]) by {
                if old_map.keys().contains(symbol@) {
                    let i = old_map.keys().index_of(symbol@);
                    assert(old_map.keys()[i] == symbol@);
                    lemma_sum_update(old_map.pairs(), i, self.per_symbol.pairs()[i], lift(f));
                } else {
                    lemma_sum_push(old_map.pairs(), self.per_symbol.pairs().last(), lift(f));
                    assert(self.per_symbol.pairs() == old_map.pairs().push(self.per_symbol.pairs().last()));
                }
            }
        }
    }

    /// Record a trade where the pool is the buyer.
    pub fn record_trade_as_buyer(&mut self, symbol: &Symbol, price: Price, quantity: Quantity)
        requires
            old(self).wf(),
            quantity.0 <= i64::MAX,
            i64::MIN <= price.0 * quantity.0 <= i64::MAX,
            old(self).record_of(symbol@).buy_volume + quantity.0 <= u64::MAX,
            i64::MIN <= old(self).record_of(symbol@).buy_value + price.0 * quantity.0 <= i64::MAX,
        ensures
            final(self).wf(),
            final(self).orders_generated() == old(self).orders_generated(),
            final(self).records() == old(self).records().insert(symbol@, SymbolAccounting {
                buy_volume: (old(self).record_of(symbol@).buy_volume + quantity.0) as u64,
                buy_value: (old(self).record_of(symbol@).buy_value + price.0 * quantity.0) as i64,
                ..old(self).record_of(symbol@)
            }),
            final(self).pnl() == old(self).pnl() - price.0 * quantity.0,
            final(self).total_of(entry_buy_volume()) == old(self).total_of(entry_buy_volume()) + quantity.0,
            final(self).total_of(entry_sell_volume()) == old(self).total_of(entry_sell_volume()),
            final(self).notional() == old(self).notional() - abs(old(self).record_of(symbol@).buy_value as int)
                + abs(old(self).record_of(symbol@).buy_value + price.0 * quantity.0),
    {
        self.record_trade(symbol, price, quantity, true);
        proof {
            assert(entry_pnl()(zero_record()) == 0);
            assert(entry_notional()(zero_record()) == 0);
            assert(entry_buy_volume()(zero_record()) == 0);
            assert(entry_sell_volume()(zero_record()) == 0);
        }
    }

    /// Record a trade where the pool is the seller.
    pub fn record_trade_as_seller(&mut self, symbol: &Symbol, price: Price, quantity: Quantity)
        requires
            old(self).wf(),
            quantity.0 <= i64::MAX,
            i64::MIN <= price.0 * quantity.0 <= i64::MAX,
            old(self).record_of(symbol@).sell_volume + quantity.0 <= u64::MAX,
            i64::MIN <= old(self).record_of(symbol@).sell_value + price.0 * quantity.0 <= i64::MAX,
        ensures
            final(self).wf(),
            final(self).orders_generated() == old(self).orders_generated(),
            final(self).records() == old(self).records().insert(symbol@, SymbolAccounting {
                sell_volume: (old(self).record_of(symbol@).sell_volume + quantity.0) as u64,
                sell_value: (old(self).record_of(symbol@).sell_value + price.0 * quantity.0) as i64,
                ..old(self).record_of(symbol@)
            }),
            final(self).pnl() == old(self).pnl() + price.0 * quantity.0,
            final(self).total_of(entry_sell_volume()) == old(self).total_of(entry_sell_volume()) + quantity.0,
            final(self).total_of(entry_buy_volume()) == old(self).total_of(entry_buy_volume()),
            final(self).notional() == old(self).notional() - abs(old(self).record_of(symbol@).sell_value as int)
                + abs(old(self).record_of(symbol@).sell_value + price.0 * quantity.0),
    {
        self.record_trade(symbol, price, quantity, false);
        proof {
            assert(entry_pnl()(zero_record()) == 0);
            assert(entry_notional()(zero_record()) == 0);
            assert(entry_buy_volume()(zero_record()) == 0);
            assert(entry_sell_volume()(zero_record()) == 0);
        }
    }

    /// Aggregate realized P&L across all symbols: sell value minus buy value.
    pub fn realized_pnl(&self) -> (c: Cash)
        requires
            self.wf(),
            self.notional() <= i64::MAX,
        ensures
            c.0 == self.pnl(),
    {
        let n = self.per_symbol.len();
        let mut total: i64 = 0;
        let mut i: usize = 0;
        let ghost pairs = self.per_symbol.pairs();
        let ghost f = lift(entry_pnl());
        let ghost g = lift(entry_notional());
        proof {
            assert forall|j: int| 0 <= j < pairs.len() implies g(#[trigger] pairs[j]) >= 0 by {}
        }
        while i < n
            invariant
                n == pairs.len(),
                pairs == self.per_symbol.pairs(),
                f == lift(entry_pnl()),
                g == lift(entry_notional()),
                i <= n,
                sum_by(pairs, g) <= i64::MAX,
                forall|j: int| 0 <= j < pairs.len() ==> g(#[trigger] pairs[j]) >= 0,
                total == sum_by(pairs.take(i as int), f),
            decreases n - i,
        {
            let acc = self.per_symbol.value_at(i);
            proof {
                lemma_sum_prefix(pairs, i as int + 1, g);
                lemma_sum_prefix(pairs, i as int, g);
                assert(pairs.take(i as int + 1).drop_last() =~= pairs.take(i as int));
                assert forall|j: int| 0 <= j < pairs.take(i as int + 1).len() implies abs(f(#[trigger] pairs.take(i as int + 1)[j]))
                    <= g(pairs.take(i as int + 1)[j]) by {}
                lemma_sum_abs_bound(pairs.take(i as int + 1), f, g);
            }
            total = total + (acc.sell_value - acc.buy_value);
            i += 1;
        }
        proof {
            assert(pairs.take(n as int) =~= pairs);
        }
        Cash(total)
    }

    /// Total notional volume: the absolute buy and sell values summed over symbols.
    pub fn total_notional(&self) -> (t: i64)
        requires
            self.wf(),
            self.notional() <= i64::MAX,
        ensures
            t == self.notional(),
    {
        let n = self.per_symbol.len();
        let mut total: i64 = 0;
        let mut i: usize = 0;
        let ghost pairs = self.per_symbol.pairs();
        let ghost g = lift(entry_notional());
        while i < n
            invariant
                n == pairs.len(),
                pairs == self.per_symbol.pairs(),
                g == lift(entry_notional()),
                i <= n,
                sum_by(pairs, g) <= i64::MAX,
                forall|j: int| 0 <= j < pairs.len() ==> g(#[trigger] pairs[j]) >= 0,
                total == sum_by(pairs.take(i as int), g),
            decreases n - i,
        {
            let acc = self.per_symbol.value_at(i);
            proof {
                lemma_sum_prefix(pairs, i as int, g);
                lemma_sum_prefix(pairs, i as int + 1, g);
            }
            let b = if acc.buy_value >= 0 { acc.buy_value } else { -acc.buy_value };
            let s = if acc.sell_value >= 0 { acc.sell_value } else { -acc.sell_value };
            total = total + b + s;
            i += 1;
        }
        proof {
            assert(pairs.take(n as int) =~= pairs);
        }
        total
    }

    /// Sum of a volume field over all symbols.
    fn total_volume(&self, buy: bool) -> (t: u64)
        requires
            self.wf(),
            buy ==> self.total_of(entry_buy_volume()) <= u64::MAX,
            !buy ==> self.total_of(entry_sell_volume()) <= u64::MAX,
        ensures
            buy ==> t == self.total_of(entry_buy_volume()),
            !buy ==> t == self.total_of(entry_sell_volume()),
    {
        let n = self.per_symbol.len();
        let mut total: u64 = 0;
        let mut i: usize = 0;
        let ghost pairs = self.per_symbol.pairs();
        let ghost g = if buy { lift(entry_buy_volume()) } else { lift(entry_sell_volume()) };
        while i < n
            invariant
                n == pairs.len(),
                pairs == self.per_symbol.pairs(),
                g == (if buy { lift(entry_buy_volume()) } else { lift(entry_sell_volume()) }),
                i <= n,
                sum_by(pairs, g) <= u64::MAX,
                forall|j: int| 0 <= j < pairs.len() ==> g(#[trigger] pairs[j]) >= 0,
                total == sum_by(pairs.take(i as int), g),
            decreases n - i,
        {
            let acc = self.per_symbol.value_at(i);
            proof {
                lemma_sum_prefix(pairs, i as int, g);
                lemma_sum_prefix(pairs, i as int + 1, g);
            }
            if buy {
                total = total + acc.buy_volume;
            } else {
                total = total + acc.sell_volume;
            }
            i += 1;
        }
        proof {
            assert(pairs.take(n as int) =~= pairs);
        }
        total
    }

    /// Total buy volume across all symbols.
    pub fn total_buy_volume(&self) -> (t: u64)
        requires
            self.wf(),
            self.total_of(entry_buy_volume()) <= u64::MAX,
        ensures
            t == self.total_of(entry_buy_volume()),
    {
        self.total_volume(true)
    }

    /// Total sell volume across all symbols.
    pub fn total_sell_volume(&self) -> (t: u64)
        requires
            self.wf(),
            self.total_of(entry_sell_volume()) <= u64::MAX,
        ensures
            t == self.total_of(entry_sell_volume()),
    {
        self.total_volume(false)
    }

    /// Check the realized P&L against a maximum acceptable loss.
    ///
    /// Passes unless the loss exceeds `threshold`.
    pub fn sanity_check_against(&self, threshold: Cash) -> (r: SanityCheckResult)
        requires
            self.wf(),
            self.notional() <= i64::MAX,
            threshold.0 > i64::MIN,
            self.total_of(entry_buy_volume()) <= u64::MAX,
            self.total_of(entry_sell_volume()) <= u64::MAX,
        ensures
            r.pnl.0 == self.pnl(),
            r.threshold == threshold,
            r.passed == (self.pnl() >= -threshold.0),
            r.buy_volume == self.total_of(entry_buy_volume()),
            r.sell_volume == self.total_of(entry_sell_volume()),
    {
        let pnl = self.realized_pnl();
        let passed = pnl.0 >= -threshold.0;
        SanityCheckResult {
            passed,
            pnl,
            threshold,
            buy_volume: self.total_buy_volume(),
            sell_volume: self.total_sell_volume(),
        }
    }

    /// Per-symbol statistics, if the symbol has been traded.
    ///
    /// Each VWAP is the value divided by the volume, truncated toward zero,
    /// and zero when the volume is zero.
    pub fn symbol_stats(&self, symbol: &Symbol) -> (r: Option<SymbolStats>)
        requires
            self.wf(),
            self.record_of(symbol@).buy_volume <= i64::MAX,
            self.record_of(symbol@).sell_volume <= i64::MAX,
        ensures
            r.is_some() == self.records().contains_key(symbol@),
            r matches Some(st) ==> {
                let rec = self.records()[symbol@];
                &&& st.buy_volume.0 == rec.buy_volume
                &&& st.sell_volume.0 == rec.sell_volume
                &&& st.vwap_buy.0 == (if rec.buy_volume > 0 { trunc_div(rec.buy_value as int, rec.buy_volume as int) } else { 0 })
                &&& st.vwap_sell.0 == (if rec.sell_volume > 0 { trunc_div(rec.sell_value as int, rec.sell_volume as int) } else { 0 })
            },
    {
        match self.per_symbol.get(symbol) {
            Some(acc) => {
                let vwap_buy = if acc.buy_volume > 0 {
                    Price(truncating_div(acc.buy_value, acc.buy_volume as i64))
                } else {
                    Price(0)
                };
                let vwap_sell = if acc.sell_volume > 0 {
                    Price(truncating_div(acc.sell_value, acc.sell_volume as i64))
                } else {
                    Price(0)
                };
                Some(SymbolStats {
                    buy_volume: Quantity(acc.buy_volume),
                    vwap_buy,
                    sell_volume: Quantity(acc.sell_volume),
                    vwap_sell,
                })
            },
            None => None,
        }
    }

    /// All tracked symbols (each once).
    pub fn symbols(&self) -> (v: Vec<Symbol>)
        requires
            self.wf(),
        ensures
            forall|s: Seq<char>| self.records().contains_key(s) <==> exists|i: int| 0 <= i < v@.len() && #[trigger] v@[i]@ == s,
            forall|i: int, j: int| 0 <= i < j < v@.len() ==> v@[i]@ != v@[j]@,
    {
        let n = self.per_symbol.len();
        let mut out: Vec<Symbol> = Vec::new();
        let mut i: usize = 0;
        while i < n
            invariant
                n == self.per_symbol.pairs().len(),
                i <= n,
                out@.len() == i,
                forall|j: int| 0 <= j < i ==> #[trigger] out@[j]@ == self.per_symbol.keys()[j],
            decreases n - i,
        {
            out.push(self.per_symbol.key_at(i).clone());
            i += 1;
        }
        proof {
            assert forall|s: Seq<char>| self.records().contains_key(s) implies exists|i: int| 0 <= i < out@.len() && #[trigger] out@[i]@ == s by {
                let i = self.per_symbol.keys().index_of(s);
                assert(out@[i]@ == s);
            }
            assert forall|i: int, j: int| 0 <= i < j < out@.len() implies out@[i]@ != out@[j]@ by {
                assert(self.per_symbol.keys()[i] != self.per_symbol.keys()[j]);
            }
        }
        out
    }
}

/// Rust's truncating division of `a` by a positive `b`.
pub(crate) fn truncating_div(a: i64, b: i64) -> (q: i64)
    requires
        b > 0,
    ensures
        q == trunc_div(a as int, b as int),
{
    if a >= 0 {
        a / b
    } else {
        let m: u64 = if a == i64::MIN {
            0x8000_0000_0000_0000u64
        } else {
            (-a) as u64
        };
        let bu = b as u64;
        let d = m / bu;
        proof {
            assert(m == -(a as int));
            assert(d <= m) by (nonlinear_arith)
                requires
                    bu >= 1,
                    d == m / bu,
            ;
        }
        if d == 0x8000_0000_0000_0000u64 {
            i64::MIN
        } else {
            -(d as i64)
        }
    }
}

impl Default for BackgroundPoolAccounting {
    fn default() -> (a: BackgroundPoolAccounting)
        ensures
            a.wf(),
            a.records() == Map::<Seq<char>, SymbolAccounting>::empty(),
            a.orders_generated() == 0,
    {
        BackgroundPoolAccounting::new()
    }
}

/// Buying `quantity` shares at one price and selling them at another moves
/// the realized P&L by the price difference times the quantity, whatever
/// else was recorded before.
pub proof fn lemma_round_trip_pnl(
    a0: BackgroundPoolAccounting,
    a1: BackgroundPoolAccounting,
    a2: BackgroundPoolAccounting,
    buy_price: Price,
    sell_price: Price,
    quantity: Quantity,
)
    requires
        a1.pnl() == a0.pnl() - buy_price.0 * quantity.0,
        a2.pnl() == a1.pnl() + sell_price.0 * quantity.0,
    ensures
        a2.pnl() == a0.pnl() + (sell_price.0 - buy_price.0) * quantity.0,
{
    assert((sell_price.0 - buy_price.0) * quantity.0 == sell_price.0 * quantity.0 - buy_price.0 * quantity.0)
        by (nonlinear_arith);
}

} // verus!
