//! Common agent state: per-symbol positions, cash and activity counters.
//!
//! Positions are tracked per symbol; a buy fill adds its quantity to the
//! position and pays its value out of cash, a sell fill does the opposite.
use vstd::prelude::*;

use crate::accounting::abs;
use crate::assoc_map::{AssocMap, lemma_sum_prefix, lemma_sum_push, lemma_sum_update, lemma_sum_zero, sum_by};
use crate::market::{Cash, Price, Symbol};

verus! {

/// Per-symbol position.
#[derive(Debug, Clone, Copy, PartialEq, Eq, Structural)]
pub struct PositionEntry {
    /// Current position in shares (positive = long, negative = short).
    pub quantity: i64,
}

impl PositionEntry {
    /// A position of `quantity` shares.
    pub fn new(quantity: i64) -> (e: PositionEntry)
        ensures
            e.quantity == quantity,
    {
        PositionEntry { quantity }
    }

    /// A flat position.
    pub fn empty() -> (e: PositionEntry)
        ensures
            e.quantity == 0,
    {
        PositionEntry { quantity: 0 }
    }
}

/// A per-position quantity that depends on the symbol's view and the entry.
pub open spec fn keyed(g: spec_fn(Seq<char>, PositionEntry) -> int) -> spec_fn((Symbol, PositionEntry)) -> int {
    |e: (Symbol, PositionEntry)| g(e.0@, e.1)
}

/// Market value of a position at `prices` (zero without a price).
pub open spec fn value_at(prices: Map<Seq<char>, Price>) -> spec_fn(Seq<char>, PositionEntry) -> int {
    |k: Seq<char>, e: PositionEntry| if prices.contains_key(k) { prices[k].0 * e.quantity } else { 0 }
}

/// Absolute market value of a position at `prices`.
pub open spec fn abs_value_at(prices: Map<Seq<char>, Price>) -> spec_fn(Seq<char>, PositionEntry) -> int {
    |k: Seq<char>, e: PositionEntry| abs(value_at(prices)(k, e))
}

/// Quantity held in one stored position.
pub open spec fn entry_quantity() -> spec_fn((Symbol, PositionEntry)) -> int {
    keyed(|k: Seq<char>, e: PositionEntry| e.quantity as int)
}

/// Absolute quantity held in one stored position.
pub open spec fn entry_abs_quantity() -> spec_fn((Symbol, PositionEntry)) -> int {
    keyed(|k: Seq<char>, e: PositionEntry| abs(e.quantity as int))
}

/// Market value of one stored position at `prices` (zero without a price).
pub open spec fn entry_value(prices: Map<Seq<char>, Price>) -> spec_fn((Symbol, PositionEntry)) -> int {
    keyed(value_at(prices))
}

/// Absolute market value of one stored position at `prices`.
pub open spec fn entry_abs_value(prices: Map<Seq<char>, Price>) -> spec_fn((Symbol, PositionEntry)) -> int {
    keyed(abs_value_at(prices))
}

/// Over positions that are all flat, a quantity that vanishes on flat
/// positions sums to zero.
proof fn lemma_flat_sums_zero(positions: AssocMap<Symbol, PositionEntry>)
    requires
        positions.wf(),
        forall|s: Seq<char>| #[trigger] positions.map().contains_key(s) ==> positions.map()[s].quantity == 0,
    ensures
        forall|g: spec_fn(Seq<char>, PositionEntry) -> int|
            (forall|k: Seq<char>| #[trigger] g(k, PositionEntry { quantity: 0 }) == 0) ==> #[trigger] sum_by(
                positions.pairs(),
                keyed(g),
            ) == 0,
{
    positions.lemma_pairs_in_map();
    assert forall|g: spec_fn(Seq<char>, PositionEntry) -> int|
        (forall|k: Seq<char>| #[trigger] g(k, PositionEntry { quantity: 0 }) == 0) implies #[trigger] sum_by(
            positions.pairs(),
            keyed(g),
        ) == 0 by {
        assert forall|j: int| 0 <= j < positions.pairs().len() implies keyed(g)(#[trigger] positions.pairs()[j]) == 0 by {
            assert(positions.map().contains_key(positions.pairs()[j].0@));
            assert(positions.pairs()[j].1 == PositionEntry { quantity: 0 });
            assert(g(positions.pairs()[j].0@, PositionEntry { quantity: 0 }) == 0);
        }
        lemma_sum_zero(positions.pairs(), keyed(g));
    }
}

/// Common state shared across agent implementations.
#[derive(Debug)]
pub struct AgentState {
    /// Per-symbol positions.
    positions: AssocMap<Symbol, PositionEntry>,
    /// Current cash balance.
    cash: Cash,
    /// Total number of orders placed.
    orders_placed: u64,
    /// Total number of fills received.
    fills_received: u64,
}

impl AgentState {
    /// Positions by symbol.
    pub closed spec fn position_map(self) -> Map<Seq<char>, PositionEntry> {
        self.positions.map()
    }

    /// Position in a symbol (zero when untracked).
    pub open spec fn position_of(self, s: Seq<char>) -> int {
        if self.position_map().contains_key(s) {
            self.position_map()[s].quantity as int
        } else {
            0
        }
    }

    /// `g` at a tracked symbol's position (zero when untracked).
    pub open spec fn held(self, g: spec_fn(Seq<char>, PositionEntry) -> int, s: Seq<char>) -> int {
        if self.position_map().contains_key(s) {
            g(s, self.position_map()[s])
        } else {
            0
        }
    }

    /// Sum of a per-position quantity over all positions.
    pub closed spec fn total_of(self, f: spec_fn((Symbol, PositionEntry)) -> int) -> int {
        sum_by(self.positions.pairs(), f)
    }

    /// Aggregate position across symbols.
    pub open spec fn aggregate_position(self) -> int {
        self.total_of(entry_quantity())
    }

    pub closed spec fn cash_spec(self) -> Cash {
        self.cash
    }

    pub closed spec fn orders_spec(self) -> u64 {
        self.orders_placed
    }

    pub closed spec fn fills_spec(self) -> u64 {
        self.fills_received
    }

    pub closed spec fn wf(self) -> bool {
        self.positions.wf()
    }

    /// Create a state with initial cash and a flat position in each symbol.
    pub fn new(initial_cash: Cash, symbols: &[&str]) -> (st: AgentState)
        ensures
            st.wf(),
            st.cash_spec() == initial_cash,
            st.orders_spec() == 0,
            st.fills_spec() == 0,
            forall|s: Seq<char>| #[trigger] st.position_map().contains_key(s)
                <==> exists|i: int| 0 <= i < symbols@.len() && symbols@[i]@ == s,
            forall|s: Seq<char>| #[trigger] st.position_map().contains_key(s) ==> st.position_map()[s].quantity == 0,
            forall|g: spec_fn(Seq<char>, PositionEntry) -> int|
                (forall|k: Seq<char>| #[trigger] g(k, PositionEntry { quantity: 0 }) == 0) ==> #[trigger] st.total_of(keyed(g)) == 0,
    {
        let mut positions: AssocMap<Symbol, PositionEntry> = AssocMap::new();
        let mut i: usize = 0;
        while i < symbols.len()
            invariant
                i <= symbols@.len(),
                positions.wf(),
                forall|s: Seq<char>| #[trigger] positions.map().contains_key(s)
                    <==> exists|j: int| 0 <= j < i && symbols@[j]@ == s,
                forall|s: Seq<char>| #[trigger] positions.map().contains_key(s) ==> positions.map()[s].quantity == 0,
            decreases symbols@.len() - i,
        {
            positions.insert(symbols[i].to_owned(), PositionEntry::empty());
            proof {
                assert forall|s: Seq<char>| #[trigger] positions.map().contains_key(s)
                    <==> exists|j: int| 0 <= j < i + 1 && symbols@[j]@ == s by {
                    if s == symbols@[i as int]@ {
                        assert(symbols@[i as int]@ == s);
                    }
                }
            }
            i += 1;
        }
        proof {
            lemma_flat_sums_zero(positions);
        }
        AgentState { positions, cash: initial_cash, orders_placed: 0, fills_received: 0 }
    }

    /// Create a state with initial cash and a flat position in each owned symbol.
    pub fn with_symbols(initial_cash: Cash, symbols: Vec<Symbol>) -> (st: AgentState)
        ensures
            st.wf(),
            st.cash_spec() == initial_cash,
            st.orders_spec() == 0,
            st.fills_spec() == 0,
            forall|s: Seq<char>| #[trigger] st.position_map().contains_key(s)
                <==> exists|i: int| 0 <= i < symbols@.len() && symbols@[i]@ == s,
            forall|s: Seq<char>| #[trigger] st.position_map().contains_key(s) ==> st.position_map()[s].quantity == 0,
            forall|g: spec_fn(Seq<char>, PositionEntry) -> int|
                (forall|k: Seq<char>| #[trigger] g(k, PositionEntry { quantity: 0 }) == 0) ==> #[trigger] st.total_of(keyed(g)) == 0,
    {
        let mut positions: AssocMap<Symbol, PositionEntry> = AssocMap::new();
        let mut i: usize = 0;
        while i < symbols.len()
            invariant
                i <= symbols@.len(),
                positions.wf(),
                forall|s: Seq<char>| #[trigger] positions.map().contains_key(s)
                    <==> exists|j: int| 0 <= j < i && symbols@[j]@ == s,
                forall|s: Seq<char>| #[trigger] positions.map().contains_key(s) ==> positions.map()[s].quantity == 0,
            decreases symbols@.len() - i,
        {
            positions.insert(symbols[i].clone(), PositionEntry::empty());
            proof {
                assert forall|s: Seq<char>| #[trigger] positions.map().contains_key(s)
                    <==> exists|j: int| 0 <= j < i + 1 && symbols@[j]@ == s by {
                    if s == symbols@[i as int]@ {
                        assert(symbols@[i as int]@ == s);
                    }
                }
            }
            i += 1;
        }
        proof {
            lemma_flat_sums_zero(positions);
        }
        AgentState { positions, cash: initial_cash, orders_placed: 0, fills_received: 0 }
    }

    /// Aggregate position across all symbols.
    pub fn position(&self) -> (p: i64)
        requires
            self.wf(),
            self.total_of(entry_abs_quantity()) <= i64::MAX,
        ensures
            p == self.aggregate_position(),
    {
        let n = self.positions.len();
        let mut total: i64 = 0;
        let mut i: usize = 0;
        let ghost pairs = self.positions.pairs();
        let ghost f = entry_quantity();
        let ghost g = entry_abs_quantity();
        while i < n
            invariant
                n == pairs.len(),
                pairs == self.positions.pairs(),
                f == entry_quantity(),
                g == entry_abs_quantity(),
                i <= n,
                sum_by(pairs, g) <= i64::MAX,
                forall|j: int| 0 <= j < pairs.len() ==> g(#[trigger] pairs[j]) >= 0,
                total == sum_by(pairs.take(i as int), f),
            decreases n - i,
        {
            let e = self.positions.value_at(i);
            proof {
                lemma_sum_prefix(pairs, i as int + 1, g);
                assert(pairs.take(i as int + 1).drop_last() =~= pairs.take(i as int));
                assert forall|j: int| 0 <= j < pairs.take(i as int + 1).len() implies abs(f(#[trigger] pairs.take(i as int + 1)[j]))
                    <= g(pairs.take(i as int + 1)[j]) by {}
                crate::accounting::lemma_sum_abs_bound(pairs.take(i as int + 1), f, g);
            }
            total = total + e.quantity;
            i += 1;
        }
        proof {
            assert(pairs.take(n as int) =~= pairs);
        }
        total
    }

    /// Position in a specific symbol (zero when untracked).
    pub fn position_for(&self, symbol: &str) -> (p: i64)
        requires
            self.wf(),
        ensures
            p == self.position_of(symbol@),
    {
        let key = symbol.to_owned();
        match self.positions.get(&key) {
            Some(e) => e.quantity,
            None => 0,
        }
    }

    /// All positions.
    pub fn positions(&self) -> (m: &AssocMap<Symbol, PositionEntry>)
        ensures
            m.map() == self.position_map(),
    {
        &self.positions
    }

    /// Symbols this agent tracks (each once).
    pub fn symbols(&self) -> (v: Vec<Symbol>)
        requires
            self.wf(),
        ensures
            forall|s: Seq<char>| self.position_map().contains_key(s) <==> exists|i: int| 0 <= i < v@.len() && #[trigger] v@[i]@ == s,
            forall|i: int, j: int| 0 <= i < j < v@.len() ==> v@[i]@ != v@[j]@,
    {
        let n = self.positions.len();
        let mut out: Vec<Symbol> = Vec::new();
        let mut i: usize = 0;
        while i < n
            invariant
                n == self.positions.pairs().len(),
                i <= n,
                out@.len() == i,
                forall|j: int| 0 <= j < i ==> #[trigger] out@[j]@ == self.positions.keys()[j],
            decreases n - i,
        {
            out.push(self.positions.key_at(i).clone());
            i += 1;
        }
        proof {
            assert forall|s: Seq<char>| self.position_map().contains_key(s) implies exists|i: int| 0 <= i < out@.len() && #[trigger] out@[i]@ == s by {
                let i = self.positions.keys().index_of(s);
                assert(out@[i]@ == s);
            }
            assert forall|i: int, j: int| 0 <= i < j < out@.len() implies out@[i]@ != out@[j]@ by {
                assert(self.positions.keys()[i] != self.positions.keys()[j]);
            }
        }
        out
    }

    /// Set the position in a symbol (for initial allocation).
    pub fn set_position(&mut self, symbol: &Symbol, position: i64)
        requires
            old(self).wf(),
        ensures
            final(self).wf(),
            final(self).position_map() == old(self).position_map().insert(symbol@, PositionEntry { quantity: position }),
            forall|g: spec_fn(Seq<char>, PositionEntry) -> int| #[trigger] final(self).total_of(keyed(g))
                == old(self).total_of(keyed(g)) - old(self).held(g, symbol@) + g(symbol@, PositionEntry { quantity: position }),
            final(self).cash_spec() == old(self).cash_spec(),
            final(self).orders_spec() == old(self).orders_spec(),
            final(self).fills_spec() == old(self).fills_spec(),
    {
        let ghost old_map = self.positions;
        self.positions.insert(symbol.clone(), PositionEntry { quantity: position });
        proof {
            old_map.lemma_pairs_in_map();
            if old_map.keys().contains(symbol@) {
                let i = old_map.keys().index_of(symbol@);
                assert(old_map.keys()[i] == symbol@);
                assert forall|g: spec_fn(Seq<char>, PositionEntry) -> int| #[trigger] sum_by(self.positions.pairs(), keyed(g))
                    == sum_by(old_map.pairs(), keyed(g)) - old(self).held(g, symbol@) + g(symbol@, PositionEntry { quantity: position }) by {
                    lemma_sum_update(old_map.pairs(), i, self.positions.pairs()[i], keyed(g));
                    assert(old_map.map()[old_map.pairs()[i].0@] == old_map.pairs()[i].1);
                }
            } else {
                assert forall|g: spec_fn(Seq<char>, PositionEntry) -> int| #[trigger] sum_by(self.positions.pairs(), keyed(g))
                    == sum_by(old_map.pairs(), keyed(g)) - old(self).held(g, symbol@) + g(symbol@, PositionEntry { quantity: position }) by {
                    lemma_sum_push(old_map.pairs(), self.positions.pairs().last(), keyed(g));
                    assert(self.positions.pairs() == old_map.pairs().push(self.positions.pairs().last()));
                }
            }
        }
    }

    /// Current cash balance.
    pub fn cash(&self) -> (c: Cash)
        ensures
            c == self.cash_spec(),
    {
        self.cash
    }

    /// Total orders placed.
    pub fn orders_placed(&self) -> (n: u64)
        ensures
            n == self.orders_spec(),
    {
        self.orders_placed
    }

    /// Total fills received.
    pub fn fills_received(&self) -> (n: u64)
        ensures
            n == self.fills_spec(),
    {
        self.fills_received
    }

    /// Add `delta` shares to a symbol's position (creating it when untracked).
    fn adjust_position(&mut self, symbol: &str, delta: i64)
        requires
            old(self).wf(),
            i64::MIN <= old(self).position_of(symbol@) + delta <= i64::MAX,
        ensures
            final(self).wf(),
            final(self).position_map() == old(self).position_map().insert(
                symbol@,
                PositionEntry { quantity: (old(self).position_of(symbol@) + delta) as i64 },
            ),
            final(self).cash_spec() == old(self).cash_spec(),
            final(self).orders_spec() == old(self).orders_spec(),
            final(self).fills_spec() == old(self).fills_spec(),
            final(self).aggregate_position() == old(self).aggregate_position() + delta,
            forall|g: spec_fn(Seq<char>, PositionEntry) -> int| #[trigger] final(self).total_of(keyed(g))
                == old(self).total_of(keyed(g)) - old(self).held(g, symbol@)
                    + g(symbol@, PositionEntry { quantity: (old(self).position_of(symbol@) + delta) as i64 }),
    {
        let key = symbol.to_owned();
        let cur = match self.positions.get(&key) {
            Some(e) => e.quantity,
            None => 0,
        };
        let ghost old_map = self.positions;
        self.positions.insert(key, PositionEntry { quantity: cur + delta });
        proof {
            old_map.lemma_pairs_in_map();
            if old_map.keys().contains(symbol@) {
                let i = old_map.keys().index_of(symbol@);
                assert(old_map.keys()[i] == symbol@);
                lemma_sum_update(old_map.pairs(), i, self.positions.pairs()[i], entry_quantity());
                assert forall|g: spec_fn(Seq<char>, PositionEntry) -> int| #[trigger] sum_by(self.positions.pairs(), keyed(g))
                    == sum_by(old_map.pairs(), keyed(g)) - old(self).held(g, symbol@)
                        + g(symbol@, PositionEntry { quantity: (old(self).position_of(symbol@) + delta) as i64 }) by {
                    lemma_sum_update(old_map.pairs(), i, self.positions.pairs()[i], keyed(g));
                    assert(old_map.map()[old_map.pairs()[i].0@] == old_map.pairs()[i].1);
                }
            } else {
                lemma_sum_push(old_map.pairs(), self.positions.pairs().last(), entry_quantity());
                assert(self.positions.pairs() == old_map.pairs().push(self.positions.pairs().last()));
                assert forall|g: spec_fn(Seq<char>, PositionEntry) -> int| #[trigger] sum_by(self.positions.pairs(), keyed(g))
                    == sum_by(old_map.pairs(), keyed(g)) - old(self).held(g, symbol@)
                        + g(symbol@, PositionEntry { quantity: (old(self).position_of(symbol@) + delta) as i64 }) by {
                    lemma_sum_push(old_map.pairs(), self.positions.pairs().last(), keyed(g));
                }
            }
        }
    }

    /// Record a buy fill of `quantity` shares costing `value`.
    pub fn on_buy(&mut self, symbol: &str, quantity: u64, value: Cash)
        requires
            old(self).wf(),
            quantity <= i64::MAX,
            old(self).position_of(symbol@) + quantity <= i64::MAX,
            i64::MIN <= old(self).cash_spec().0 - value.0 <= i64::MAX,
            old(self).fills_spec() < u64::MAX,
        ensures
            final(self).wf(),
            final(self).position_map() == old(self).position_map().insert(
                symbol@,
                PositionEntry { quantity: (old(self).position_of(symbol@) + quantity) as i64 },
            ),
            final(self).aggregate_position() == old(self).aggregate_position() + quantity,
            forall|g: spec_fn(Seq<char>, PositionEntry) -> int| #[trigger] final(self).total_of(keyed(g))
                == old(self).total_of(keyed(g)) - old(self).held(g, symbol@)
                    + g(symbol@, PositionEntry { quantity: (old(self).position_of(symbol@) + quantity) as i64 }),
            final(self).cash_spec().0 == old(self).cash_spec().0 - value.0,
            final(self).fills_spec() == old(self).fills_spec() + 1,
            final(self).orders_spec() == old(self).orders_spec(),
    {
        self.adjust_position(symbol, quantity as i64);
        let ghost mid = *self;
        self.cash = Cash(self.cash.0 - value.0);
        self.fills_received = self.fills_received + 1;
        proof {
            assert forall|g: spec_fn(Seq<char>, PositionEntry) -> int| #[trigger] self.total_of(keyed(g))
                == old(self).total_of(keyed(g)) - old(self).held(g, symbol@)
                    + g(symbol@, PositionEntry { quantity: (old(self).position_of(symbol@) + quantity) as i64 }) by {
                assert(self.total_of(keyed(g)) == mid.total_of(keyed(g)));
            }
        }
    }

    /// Record a sell fill of `quantity` shares receiving `value`.
    pub fn on_sell(&mut self, symbol: &str, quantity: u64, value: Cash)
        requires
            old(self).wf(),
            quantity <= i64::MAX,
            old(self).position_of(symbol@) - quantity >= i64::MIN,
            i64::MIN <= old(self).cash_spec().0 + value.0 <= i64::MAX,
            old(self).fills_spec() < u64::MAX,
        ensures
            final(self).wf(),
            final(self).position_map() == old(self).position_map().insert(
                symbol@,
                PositionEntry { quantity: (old(self).position_of(symbol@) - quantity) as i64 },
            ),
            final(self).aggregate_position() == old(self).aggregate_position() - quantity,
            forall|g: spec_fn(Seq<char>, PositionEntry) -> int| #[trigger] final(self).total_of(keyed(g))
                == old(self).total_of(keyed(g)) - old(self).held(g, symbol@)
                    + g(symbol@, PositionEntry { quantity: (old(self).position_of(symbol@) - quantity) as i64 }),
            final(self).cash_spec().0 == old(self).cash_spec().0 + value.0,
            final(self).fills_spec() == old(self).fills_spec() + 1,
            final(self).orders_spec() == old(self).orders_spec(),
    {
        self.adjust_position(symbol, -(quantity as i64));
        let ghost mid = *self;
        self.cash = Cash(self.cash.0 + value.0);
        self.fills_received = self.fills_received + 1;
        proof {
            assert forall|g: spec_fn(Seq<char>, PositionEntry) -> int| #[trigger] self.total_of(keyed(g))
                == old(self).total_of(keyed(g)) - old(self).held(g, symbol@)
                    + g(symbol@, PositionEntry { quantity: (old(self).position_of(symbol@) - quantity) as i64 }) by {
                assert(self.total_of(keyed(g)) == mid.total_of(keyed(g)));
            }
        }
    }

    /// Increment the orders placed counter.
    pub fn record_order(&mut self)
        requires
            old(self).orders_spec() < u64::MAX,
        ensures
            final(self).orders_spec() == old(self).orders_spec() + 1,
            final(self).position_map() == old(self).position_map(),
            final(self).wf() == old(self).wf(),
            final(self).cash_spec() == old(self).cash_spec(),
            final(self).fills_spec() == old(self).fills_spec(),
    {
        self.orders_placed = self.orders_placed + 1;
    }

    /// Increment the orders placed counter by `count`.
    pub fn record_orders(&mut self, count: u64)
        requires
            old(self).orders_spec() + count <= u64::MAX,
        ensures
            final(self).orders_spec() == old(self).orders_spec() + count,
            final(self).position_map() == old(self).position_map(),
            final(self).wf() == old(self).wf(),
            final(self).cash_spec() == old(self).cash_spec(),
            final(self).fills_spec() == old(self).fills_spec(),
    {
        self.orders_placed = self.orders_placed + count;
    }

    /// Equity: cash plus the market value of every position that has a price.
    pub open spec fn equity_spec(self, prices: Map<Seq<char>, Price>) -> int {
        self.cash_spec().0 + self.total_of(entry_value(prices))
    }

    /// Total equity given prices for the tracked symbols.
    pub fn equity(&self, prices: &AssocMap<Symbol, Price>) -> (c: Cash)
        requires
            self.wf(),
            prices.wf(),
            abs(self.cash_spec().0 as int) + self.total_of(entry_abs_value(prices.map())) <= i64::MAX,
        ensures
            c.0 == self.equity_spec(prices.map()),
    {
        let n = self.positions.len();
        let mut acc: i64 = self.cash.0;
        let mut i: usize = 0;
        let ghost pairs = self.positions.pairs();
        let ghost f = entry_value(prices.map());
        let ghost g = entry_abs_value(prices.map());
        proof {
            assert forall|j: int| 0 <= j < pairs.len() implies g(#[trigger] pairs[j]) >= 0 by {}
        }
        while i < n
            invariant
                n == pairs.len(),
                pairs == self.positions.pairs(),
                prices.wf(),
                f == entry_value(prices.map()),
                g == entry_abs_value(prices.map()),
                i <= n,
                abs(self.cash.0 as int) + sum_by(pairs, g) <= i64::MAX,
                forall|j: int| 0 <= j < pairs.len() ==> g(#[trigger] pairs[j]) >= 0,
                acc == self.cash.0 + sum_by(pairs.take(i as int), f),
            decreases n - i,
        {
            let key = self.positions.key_at(i);
            let e = self.positions.value_at(i);
            proof {
                lemma_sum_prefix(pairs, i as int + 1, g);
                assert(pairs.take(i as int + 1).drop_last() =~= pairs.take(i as int));
                assert forall|j: int| 0 <= j < pairs.take(i as int + 1).len() implies abs(f(#[trigger] pairs.take(i as int + 1)[j]))
                    <= g(pairs.take(i as int + 1)[j]) by {}
                crate::accounting::lemma_sum_abs_bound(pairs.take(i as int + 1), f, g);
                lemma_sum_prefix(pairs, i as int, g);
            }
            match prices.get(key) {
                Some(p) => {
                    proof {
                        assert(f(pairs[i as int]) == p.0 * e.quantity);
                        assert(abs(f(pairs[i as int])) <= sum_by(pairs, g));
                    }
                    let value = p.0 * e.quantity;
                    acc = acc + value;
                },
                None => {},
            }
            i += 1;
        }
        proof {
            assert(pairs.take(n as int) =~= pairs);
        }
        Cash(acc)
    }

    /// Equity for a single symbol: cash plus the position's value at `price`.
    pub fn equity_for(&self, symbol: &str, price: Price) -> (c: Cash)
        requires
            self.wf(),
            i64::MIN <= price.0 * self.position_of(symbol@) <= i64::MAX,
            i64::MIN <= self.cash_spec().0 + price.0 * self.position_of(symbol@) <= i64::MAX,
        ensures
            c.0 == self.cash_spec().0 + price.0 * self.position_of(symbol@),
    {
        let position = self.position_for(symbol);
        let value = price.0 * position;
        Cash(self.cash.0 + value)
    }
}

impl Default for AgentState {
    fn default() -> (st: AgentState)
        ensures
            st.wf(),
            st.position_map() == Map::<Seq<char>, PositionEntry>::empty(),
            st.cash_spec() == Cash(0),
            st.orders_spec() == 0,
            st.fills_spec() == 0,
    {
        AgentState { positions: AssocMap::new(), cash: Cash(0), orders_placed: 0, fills_received: 0 }
    }
}

/// Equity counts every priced position by its signed market value: when a
/// fill or an update moves the position in `s` to `quantity` shares and the
/// cash by `cash_delta` (as `set_position`, `on_buy` and `on_sell` state),
/// equity moves by `cash_delta` plus the price of `s` times the change in
/// shares. So a sale at the market price leaves equity where it was, and a
/// short position at a positive price lowers equity.
pub proof fn lemma_equity_follows_position(
    before: AgentState,
    after: AgentState,
    s: Seq<char>,
    quantity: i64,
    cash_delta: int,
    prices: Map<Seq<char>, Price>,
)
    requires
        after.cash_spec().0 == before.cash_spec().0 + cash_delta,
        forall|g: spec_fn(Seq<char>, PositionEntry) -> int| #[trigger] after.total_of(keyed(g))
            == before.total_of(keyed(g)) - before.held(g, s) + g(s, PositionEntry { quantity }),
    ensures
        ({
            let p: int = if prices.contains_key(s) { prices[s].0 as int } else { 0 };
            &&& after.equity_spec(prices) == before.equity_spec(prices) + cash_delta + p * (quantity - before.position_of(s))
            &&& p > 0 && quantity < before.position_of(s) ==> after.equity_spec(prices) < before.equity_spec(prices) + cash_delta
        }),
{
    let g = value_at(prices);
    assert(after.total_of(keyed(g)) == before.total_of(keyed(g)) - before.held(g, s) + g(s, PositionEntry { quantity }));
    let p: int = if prices.contains_key(s) { prices[s].0 as int } else { 0 };
    assert(before.held(g, s) == p * before.position_of(s));
    assert(g(s, PositionEntry { quantity }) == p * quantity);
    assert(p * quantity - p * before.position_of(s) == p * (quantity - before.position_of(s))) by (nonlinear_arith);
    assert(p > 0 && quantity < before.position_of(s) ==> p * (quantity - before.position_of(s)) < 0) by (nonlinear_arith);
}

} // verus!
