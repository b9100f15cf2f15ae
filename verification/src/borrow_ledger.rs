//! Borrow ledger for short selling.
//!
//! Tracks, per symbol, how many shares remain available in the borrow pool,
//! and, per agent and symbol, how many shares the agent has borrowed.
//! Borrowing moves shares from the pool to the agent; returning moves them
//! back, so the pool plus everything borrowed stays constant for each symbol.
use vstd::prelude::*;

use crate::assoc_map::{
    AssocMap, lemma_sum_nonneg, lemma_sum_prefix, lemma_sum_push, lemma_sum_remove, lemma_sum_update, lemma_sum_zero,
    sum_by,
};
use crate::market::{AgentId, Quantity, Symbol, Tick};

verus! {

/// A single borrow position held by an agent.
#[derive(Debug, Clone)]
pub struct BorrowPosition {
    /// The symbol borrowed.
    pub symbol: Symbol,
    /// Number of shares currently borrowed.
    pub quantity: Quantity,
    /// Tick when the borrow was initiated.
    pub borrowed_at: Tick,
}

impl BorrowPosition {
    /// Create a new borrow position.
    pub fn new(symbol: Symbol, quantity: Quantity, tick: Tick) -> (p: BorrowPosition)
        ensures
            p.symbol == symbol,
            p.quantity == quantity,
            p.borrowed_at == tick,
    {
        BorrowPosition { symbol, quantity, borrowed_at: tick }
    }

    /// Number of ticks the borrow has been held (zero if `current_tick` is earlier).
    pub fn ticks_held(&self, current_tick: Tick) -> (t: u64)
        ensures
            t == (if current_tick >= self.borrowed_at { current_tick - self.borrowed_at } else { 0 }),
    {
        if current_tick >= self.borrowed_at {
            current_tick - self.borrowed_at
        } else {
            0
        }
    }
}

/// Shares of symbol `s` that one agent's positions hold.
pub open spec fn qty_at(inner: AssocMap<Symbol, BorrowPosition>, s: Seq<char>) -> int {
    if inner.map().contains_key(s) {
        inner.map()[s].quantity.0 as int
    } else {
        0
    }
}

/// Per-entry contribution to the total borrowed of symbol `s`.
pub open spec fn entry_qty(s: Seq<char>) -> spec_fn((AgentId, AssocMap<Symbol, BorrowPosition>)) -> int {
    |e: (AgentId, AssocMap<Symbol, BorrowPosition>)| qty_at(e.1, s)
}

/// Ledger tracking all borrows across agents and symbols.
#[derive(Debug)]
pub struct BorrowLedger {
    /// Available shares to borrow per symbol.
    available: AssocMap<Symbol, Quantity>,
    /// Borrowed positions: agent -> symbol -> position.
    borrows: AssocMap<AgentId, AssocMap<Symbol, BorrowPosition>>,
}

impl BorrowLedger {
    /// Pools: symbol -> shares available to borrow.
    pub closed spec fn pools(self) -> Map<Seq<char>, Quantity> {
        self.available.map()
    }

    /// Available shares of a symbol (zero when it has no pool).
    pub open spec fn pool(self, s: Seq<char>) -> int {
        if self.pools().contains_key(s) {
            self.pools()[s].0 as int
        } else {
            0
        }
    }

    /// Positions: (agent, symbol) -> position.
    pub closed spec fn positions(self) -> Map<(u64, Seq<char>), BorrowPosition> {
        Map::new(
            |k: (u64, Seq<char>)| self.borrows.map().contains_key(k.0) && self.borrows.map()[k.0].map().contains_key(k.1),
            |k: (u64, Seq<char>)| self.borrows.map()[k.0].map()[k.1],
        )
    }

    /// Shares an agent has borrowed of a symbol (zero without a position).
    pub open spec fn borrowed_qty(self, a: u64, s: Seq<char>) -> int {
        if self.positions().contains_key((a, s)) {
            self.positions()[(a, s)].quantity.0 as int
        } else {
            0
        }
    }

    /// Agents that hold at least one position.
    pub closed spec fn borrowers(self) -> Set<u64> {
        self.borrows.map().dom()
    }

    /// Total shares of a symbol borrowed by all agents.
    pub closed spec fn total_borrowed_of(self, s: Seq<char>) -> int {
        sum_by(self.borrows.pairs(), entry_qty(s))
    }

    /// One agent's positions are well formed: distinct non-empty symbols,
    /// each position keyed by its own symbol, each symbol with a pool.
    pub closed spec fn inner_ok(self, inner: AssocMap<Symbol, BorrowPosition>) -> bool {
        &&& inner.wf()
        &&& inner.pairs().len() > 0
        &&& forall|j: int| 0 <= j < inner.pairs().len() ==> {
            &&& (#[trigger] inner.pairs()[j]).1.symbol@ == inner.pairs()[j].0@
            &&& self.available.map().contains_key(inner.pairs()[j].0@)
        }
    }

    /// Well-formedness: distinct keys, well-formed agent entries, and for
    /// every symbol the pool plus the borrowed total fits in a `u64`.
    pub closed spec fn wf(self) -> bool {
        &&& self.available.wf()
        &&& self.borrows.wf()
        &&& forall|i: int| 0 <= i < self.borrows.pairs().len() ==> self.inner_ok(#[trigger] self.borrows.pairs()[i].1)
        &&& forall|s: Seq<char>| self.pool(s) + #[trigger] self.total_borrowed_of(s) <= u64::MAX
    }

    /// Positions stay well formed when pools only gain symbols.
    proof fn lemma_inner_ok_grow(self, other: BorrowLedger, inner: AssocMap<Symbol, BorrowPosition>)
        requires
            self.inner_ok(inner),
            forall|k: Seq<char>| self.available.map().contains_key(k) ==> #[trigger] other.available.map().contains_key(k),
        ensures
            other.inner_ok(inner),
    {
        assert forall|j: int| 0 <= j < inner.pairs().len() implies {
            &&& (#[trigger] inner.pairs()[j]).1.symbol@ == inner.pairs()[j].0@
            &&& other.available.map().contains_key(inner.pairs()[j].0@)
        } by {
            assert(self.available.map().contains_key(inner.pairs()[j].0@));
        }
    }

    /// A map whose every value is keyed by its own symbol and whose every key has a pool is well formed.
    proof fn lemma_inner_ok_from_map(self, inner: AssocMap<Symbol, BorrowPosition>)
        requires
            inner.wf(),
            inner.map().dom().len() > 0,
            forall|k: Seq<char>| #[trigger] inner.map().contains_key(k) ==> inner.map()[k].symbol@ == k
                && self.available.map().contains_key(k),
        ensures
            self.inner_ok(inner),
    {
        inner.lemma_pairs_in_map();
        assert forall|j: int| 0 <= j < inner.pairs().len() implies {
            &&& (#[trigger] inner.pairs()[j]).1.symbol@ == inner.pairs()[j].0@
            &&& self.available.map().contains_key(inner.pairs()[j].0@)
        } by {
            assert(inner.map().contains_key(inner.pairs()[j].0@));
        }
    }

    proof fn lemma_wf_facts(self)
        requires
            self.wf(),
        ensures
            forall|a: u64| #[trigger] self.borrows.map().contains_key(a) ==> self.borrows.map()[a].wf(),
            forall|a: u64, s: Seq<char>| #[trigger] self.positions().contains_key((a, s)) ==> self.pools().contains_key(s)
                && self.positions()[(a, s)].symbol@ == s,
            forall|s: Seq<char>| self.pool(s) + #[trigger] self.total_borrowed_of(s) <= u64::MAX,
            forall|s: Seq<char>| #[trigger] self.total_borrowed_of(s) >= 0,
            forall|a: u64, s: Seq<char>| #[trigger] self.borrowed_qty(a, s) <= self.total_borrowed_of(s),
    {
        self.borrows.lemma_pairs_in_map();
        assert forall|a: u64| #[trigger] self.borrows.map().contains_key(a) implies self.borrows.map()[a].wf() by {
            let i = self.borrows.keys().index_of(a);
            assert(self.borrows.keys()[i] == a);
            assert(self.borrows.pairs()[i].0@ == a);
            assert(self.inner_ok(self.borrows.pairs()[i].1));
        }
        assert forall|a: u64, s: Seq<char>| #[trigger] self.positions().contains_key((a, s)) implies self.pools().contains_key(s)
            && self.positions()[(a, s)].symbol@ == s by {
            let i = self.borrows.keys().index_of(a);
            assert(self.borrows.keys()[i] == a);
            let inner = self.borrows.pairs()[i].1;
            assert(self.inner_ok(inner));
            inner.lemma_pairs_in_map();
            let j = inner.keys().index_of(s);
            assert(inner.keys()[j] == s);
            assert(inner.pairs()[j].0@ == s);
        }
        assert forall|s: Seq<char>| #[trigger] self.total_borrowed_of(s) >= 0 by {
            lemma_sum_nonneg(self.borrows.pairs(), entry_qty(s));
        }
        assert forall|a: u64, s: Seq<char>| #[trigger] self.borrowed_qty(a, s) <= self.total_borrowed_of(s) by {
            lemma_sum_nonneg(self.borrows.pairs(), entry_qty(s));
            if self.positions().contains_key((a, s)) {
                let i = self.borrows.keys().index_of(a);
                assert(self.borrows.keys()[i] == a);
                assert(entry_qty(s)(self.borrows.pairs()[i]) == self.borrowed_qty(a, s));
            }
        }
    }

    /// What one agent has borrowed of a symbol is part of the symbol's
    /// borrowed total, so it fits beside the pool in a `u64`.
    pub proof fn lemma_borrowed_within_total(self, a: u64, s: Seq<char>)
        requires
            self.wf(),
        ensures
            0 <= self.borrowed_qty(a, s) <= self.total_borrowed_of(s),
            self.pool(s) + self.total_borrowed_of(s) <= u64::MAX,
            self.pool(s) + self.borrowed_qty(a, s) <= u64::MAX,
    {
        self.lemma_wf_facts();
    }

    /// Create a new empty borrow ledger.
    pub fn new() -> (l: BorrowLedger)
        ensures
            l.wf(),
            l.pools() == Map::<Seq<char>, Quantity>::empty(),
            l.positions() == Map::<(u64, Seq<char>), BorrowPosition>::empty(),
            l.borrowers() == Set::<u64>::empty(),
            forall|s: Seq<char>| #[trigger] l.total_borrowed_of(s) == 0,
    {
        let l = BorrowLedger { available: AssocMap::new(), borrows: AssocMap::new() };
        assert(l.positions() =~= Map::<(u64, Seq<char>), BorrowPosition>::empty());
        l
    }

    /// Initialize (or reset) the borrow pool of a symbol.
    pub fn init_symbol(&mut self, symbol: &str, pool_size: Quantity)
        requires
            old(self).wf(),
            pool_size.0 + old(self).total_borrowed_of(symbol@) <= u64::MAX,
        ensures
            final(self).wf(),
            final(self).pools() == old(self).pools().insert(symbol@, pool_size),
            final(self).positions() == old(self).positions(),
            final(self).borrowers() == old(self).borrowers(),
            forall|s: Seq<char>| #[trigger] final(self).total_borrowed_of(s) == old(self).total_borrowed_of(s),
    {
        self.available.insert(symbol.to_owned(), pool_size);
        proof {
            assert forall|s: Seq<char>| self.pool(s) + #[trigger] self.total_borrowed_of(s) <= u64::MAX by {
                assert(self.total_borrowed_of(s) == old(self).total_borrowed_of(s));
                if s != symbol@ {
                    assert(self.pool(s) == old(self).pool(s));
                }
            }
        }
    }

    /// Shares of a symbol available to borrow (zero for an unknown symbol).
    pub fn available(&self, symbol: &str) -> (q: Quantity)
        requires
            self.wf(),
        ensures
            q.0 == self.pool(symbol@),
    {
        let key = symbol.to_owned();
        match self.available.get(&key) {
            Some(q) => *q,
            None => Quantity(0),
        }
    }

    /// Whether `quantity` shares can be borrowed now.
    pub fn can_borrow(&self, symbol: &str, quantity: Quantity) -> (b: bool)
        requires
            self.wf(),
        ensures
            b == (self.pool(symbol@) >= quantity.0),
    {
        self.available(symbol).0 >= quantity.0
    }

    /// Shares an agent currently has borrowed of a symbol.
    pub fn borrowed(&self, agent_id: AgentId, symbol: &str) -> (q: Quantity)
        requires
            self.wf(),
        ensures
            q.0 == self.borrowed_qty(agent_id.0, symbol@),
    {
        let key = symbol.to_owned();
        match self.borrows.get(&agent_id) {
            Some(inner) => {
                proof {
                    self.lemma_wf_facts();
                }
                match inner.get(&key) {
                    Some(p) => p.quantity,
                    None => Quantity(0),
                }
            },
            None => Quantity(0),
        }
    }

    /// Total shares of a symbol borrowed across all agents.
    pub fn total_borrowed(&self, symbol: &str) -> (q: Quantity)
        requires
            self.wf(),
        ensures
            q.0 == self.total_borrowed_of(symbol@),
    {
        let key = symbol.to_owned();
        let ghost f = entry_qty(symbol@);
        proof {
            self.lemma_wf_facts();
            self.borrows.lemma_pairs_in_map();
            assert forall|j: int| 0 <= j < self.borrows.pairs().len() implies f(#[trigger] self.borrows.pairs()[j]) >= 0 by {}
        }
        let mut total: u64 = 0;
        let mut i: usize = 0;
        let n = self.borrows.len();
        while i < n
            invariant
                self.wf(),
                n == self.borrows.pairs().len(),
                i <= n,
                key@ == symbol@,
                f == entry_qty(symbol@),
                forall|j: int| 0 <= j < self.borrows.pairs().len() ==> f(#[trigger] self.borrows.pairs()[j]) >= 0,
                total == sum_by(self.borrows.pairs().take(i as int), f),
            decreases n - i,
        {
            proof {
                lemma_sum_prefix(self.borrows.pairs(), i as int, f);
                lemma_sum_prefix(self.borrows.pairs(), i as int + 1, f);
                assert(self.borrows.pairs()[i as int].1.wf());
                self.lemma_wf_facts();
            }
            let inner = self.borrows.value_at(i);
            match inner.get(&key) {
                Some(p) => {
                    proof {
                        assert(self.pool(symbol@) + self.total_borrowed_of(symbol@) <= u64::MAX);
                        assert(f(self.borrows.pairs()[i as int]) == p.quantity.0);
                    }
                    total = total + p.quantity.0;
                },
                None => {},
            }
            i += 1;
        }
        proof {
            assert(self.borrows.pairs().take(n as int) =~= self.borrows.pairs());
        }
        Quantity(total)
    }

    /// The positions after `quantity` more shares of `s` were borrowed by agent `a` at `tick`.
    pub open spec fn borrowed_more(self, old_ledger: BorrowLedger, a: u64, s: Seq<char>, quantity: u64, tick: Tick) -> bool {
        &&& self.positions().dom() == old_ledger.positions().dom().insert((a, s))
        &&& forall|k: (u64, Seq<char>)| k != (a, s) && #[trigger] old_ledger.positions().contains_key(k)
            ==> self.positions()[k] == old_ledger.positions()[k]
        &&& self.positions()[(a, s)].symbol@ == s
        &&& self.borrowed_qty(a, s) == old_ledger.borrowed_qty(a, s) + quantity
        &&& self.positions()[(a, s)].borrowed_at == (if old_ledger.positions().contains_key((a, s)) {
            old_ledger.positions()[(a, s)].borrowed_at
        } else {
            tick
        })
    }

    /// `self` is the ledger after a successful borrow of `quantity` shares of `s` by `a` at `tick`.
    pub open spec fn borrow_step(self, old_ledger: BorrowLedger, a: u64, s: Seq<char>, quantity: u64, tick: Tick) -> bool {
        &&& old_ledger.pool(s) >= quantity
        &&& self.pools() == old_ledger.pools().insert(s, Quantity((old_ledger.pool(s) - quantity) as u64))
        &&& self.borrowed_more(old_ledger, a, s, quantity, tick)
    }

    /// Borrow shares for short selling.
    ///
    /// Fails with the shortfall when the pool holds fewer than `quantity`
    /// shares; a symbol without a pool then gets an empty one.
    pub fn borrow(&mut self, agent_id: AgentId, symbol: &str, quantity: Quantity, tick: Tick) -> (r: Result<(), Quantity>)
        requires
            old(self).wf(),
        ensures
            final(self).wf(),
            r.is_ok() == (old(self).pool(symbol@) >= quantity.0),
            r matches Err(needed) ==> {
                &&& needed.0 == quantity.0 - old(self).pool(symbol@)
                &&& final(self).pools() == old(self).pools().insert(symbol@, Quantity(old(self).pool(symbol@) as u64))
                &&& final(self).positions() == old(self).positions()
                &&& final(self).borrowers() == old(self).borrowers()
            },
            r is Ok ==> {
                &&& final(self).borrow_step(*old(self), agent_id.0, symbol@, quantity.0, tick)
                &&& final(self).borrowers() == old(self).borrowers().insert(agent_id.0)
                &&& final(self).total_borrowed_of(symbol@) == old(self).total_borrowed_of(symbol@) + quantity.0
            },
            forall|s: Seq<char>| s != symbol@ ==> #[trigger] final(self).total_borrowed_of(s) == old(self).total_borrowed_of(s),
            forall|s: Seq<char>| #[trigger] final(self).pool(s) + final(self).total_borrowed_of(s)
                == old(self).pool(s) + old(self).total_borrowed_of(s),
    {
        proof {
            self.lemma_wf_facts();
            self.borrows.lemma_pairs_in_map();
        }
        let sym = symbol.to_owned();
        let avail: u64 = match self.available.get(&sym) {
            Some(q) => q.0,
            None => 0,
        };
        if avail < quantity.0 {
            if self.available.find(&sym).is_none() {
                self.available.insert(sym, Quantity(0));
            }
            proof {
                assert(self.pools() =~= old(self).pools().insert(symbol@, Quantity(old(self).pool(symbol@) as u64)));
                assert(self.positions() =~= old(self).positions());
                assert forall|s: Seq<char>| self.pool(s) + #[trigger] self.total_borrowed_of(s) <= u64::MAX by {
                    assert(self.total_borrowed_of(s) == old(self).total_borrowed_of(s));
                    assert(self.pool(s) == old(self).pool(s));
                }
                assert forall|i: int| 0 <= i < self.borrows.pairs().len() implies {
                    let inner = #[trigger] self.borrows.pairs()[i].1;
                    forall|j: int| 0 <= j < inner.pairs().len() ==> self.available.map().contains_key(#[trigger] inner.pairs()[j].0@)
                } by {
                    let inner = self.borrows.pairs()[i].1;
                    assert forall|j: int| 0 <= j < inner.pairs().len() implies self.available.map().contains_key(#[trigger] inner.pairs()[j].0@) by {
                        assert(old(self).available.map().contains_key(inner.pairs()[j].0@));
                    }
                }
            }
            return Err(Quantity(quantity.0 - avail));
        }
        self.available.insert(sym.clone(), Quantity(avail - quantity.0));
        let ghost mid = *self;
        let ghost a = agent_id.0;
        let ghost sv = symbol@;
        let ghost q = quantity.0;
        let ghost np: BorrowPosition;
        let ghost new_inner: AssocMap<Symbol, BorrowPosition>;
        let ghost old_inner_map: Map<Seq<char>, BorrowPosition>;
        match self.borrows.find(&agent_id) {
            Some(i) => {
                let ghost old_inner = self.borrows.pairs()[i as int].1;
                proof {
                    assert(old_inner.wf());
                    old_inner_map = old_inner.map();
                }
                let inner = self.borrows.value_at_mut(i);
                let new_pos = match inner.get(&sym) {
                    Some(p) => {
                        proof {
                            assert(old(self).borrowed_qty(agent_id.0, symbol@) == p.quantity.0);
                            assert(old(self).borrowed_qty(agent_id.0, symbol@) <= old(self).total_borrowed_of(symbol@));
                            assert(old(self).pool(symbol@) + old(self).total_borrowed_of(symbol@) <= u64::MAX);
                        }
                        BorrowPosition { symbol: sym.clone(), quantity: Quantity(p.quantity.0 + quantity.0), borrowed_at: p.borrowed_at }
                    },
                    None => BorrowPosition::new(sym.clone(), quantity, tick),
                };
                proof {
                    np = new_pos;
                    assert(np.symbol@ == sv);
                    assert(np.quantity.0 == (if old_inner_map.contains_key(sv) { old_inner_map[sv].quantity.0 as int } else { 0 }) + q);
                    assert(np.borrowed_at == (if old_inner_map.contains_key(sv) { old_inner_map[sv].borrowed_at } else { tick }));
                    assert(old(self).borrows.map().contains_key(a) && old(self).borrows.map()[a] == old_inner);
                }
                inner.insert(sym, new_pos);
                proof {
                    let e = self.borrows.pairs()[i as int];
                    new_inner = e.1;
                    AssocMap::lemma_update_at(mid.borrows, self.borrows, i as int, e);
                    assert forall|t: Seq<char>| #[trigger] sum_by(self.borrows.pairs(), entry_qty(t))
                        == sum_by(mid.borrows.pairs(), entry_qty(t)) - qty_at(old_inner, t) + qty_at(new_inner, t) by {
                        lemma_sum_update(mid.borrows.pairs(), i as int, e, entry_qty(t));
                    }
                }
            },
            None => {
                let mut inner: AssocMap<Symbol, BorrowPosition> = AssocMap::new();
                let new_pos = BorrowPosition::new(sym.clone(), quantity, tick);
                proof {
                    np = new_pos;
                    old_inner_map = Map::empty();
                    assert(np.symbol@ == sv);
                    assert(!old(self).borrows.map().contains_key(a));
                }
                inner.insert(sym, new_pos);
                proof {
                    new_inner = inner;
                }
                self.borrows.insert(agent_id, inner);
                proof {
                    assert forall|t: Seq<char>| #[trigger] sum_by(self.borrows.pairs(), entry_qty(t))
                        == sum_by(mid.borrows.pairs(), entry_qty(t)) + qty_at(new_inner, t) by {
                        lemma_sum_push(mid.borrows.pairs(), (agent_id, new_inner), entry_qty(t));
                    }
                }
            },
        }
        proof {
            let mq = |t: Seq<char>| if old_inner_map.contains_key(t) { old_inner_map[t].quantity.0 as int } else { 0 };
            assert(self.borrows.map() == old(self).borrows.map().insert(a, new_inner));
            assert(new_inner.map() == old_inner_map.insert(sv, np));
            assert(new_inner.wf());
            assert(np.quantity.0 == mq(sv) + q);
            assert(np.borrowed_at == (if old_inner_map.contains_key(sv) { old_inner_map[sv].borrowed_at } else { tick }));
            assert(old(self).borrows.map().contains_key(a) ==> old(self).borrows.map()[a].map() == old_inner_map);
            // positions
            assert forall|k: (u64, Seq<char>)| #[trigger] self.positions().contains_key(k)
                <==> old(self).positions().insert((a, sv), np).contains_key(k) by {}
            assert forall|k: (u64, Seq<char>)| #[trigger] self.positions().contains_key(k) implies self.positions()[k]
                == old(self).positions().insert((a, sv), np)[k] by {}
            assert(self.positions() =~= old(self).positions().insert((a, sv), np));
            // totals
            assert forall|t: Seq<char>| #[trigger] old(self).borrowed_qty(a, t) == mq(t) by {}
            assert forall|t: Seq<char>| #[trigger] self.total_borrowed_of(t)
                == old(self).total_borrowed_of(t) + (if t == sv { q as int } else { 0 }) by {
                assert(sum_by(self.borrows.pairs(), entry_qty(t)) == sum_by(mid.borrows.pairs(), entry_qty(t)) - mq(t) + qty_at(new_inner, t));
            }
            // pools
            assert(self.pools() == old(self).pools().insert(sv, Quantity((old(self).pool(sv) - q) as u64)));
            assert forall|t: Seq<char>| #[trigger] self.pool(t) + self.total_borrowed_of(t)
                == old(self).pool(t) + old(self).total_borrowed_of(t) by {
                assert(self.total_borrowed_of(t) == old(self).total_borrowed_of(t) + (if t == sv { q as int } else { 0 }));
            }
            assert forall|t: Seq<char>| self.pool(t) + #[trigger] self.total_borrowed_of(t) <= u64::MAX by {
                assert(self.pool(t) + self.total_borrowed_of(t) == old(self).pool(t) + old(self).total_borrowed_of(t));
                assert(old(self).pool(t) + old(self).total_borrowed_of(t) <= u64::MAX);
            }
            // inner well-formedness
            assert forall|k: Seq<char>| old(self).available.map().contains_key(k) implies #[trigger] self.available.map().contains_key(k) by {}
            assert(new_inner.map().contains_key(sv));
            new_inner.lemma_pairs_in_map();
            assert forall|k: Seq<char>| #[trigger] new_inner.map().contains_key(k) implies new_inner.map()[k].symbol@ == k
                && self.available.map().contains_key(k) by {
                if k != sv {
                    assert(old(self).positions().contains_key((a, k)));
                }
            }
            self.lemma_inner_ok_from_map(new_inner);
            self.borrows.lemma_pairs_in_map();
            old(self).borrows.lemma_pairs_in_map();
            assert forall|i: int| 0 <= i < self.borrows.pairs().len() implies self.inner_ok(#[trigger] self.borrows.pairs()[i].1) by {
                let e = self.borrows.pairs()[i];
                if e.0@ != a {
                    assert(old(self).borrows.map().contains_key(e.0@));
                    let j = old(self).borrows.keys().index_of(e.0@);
                    assert(old(self).borrows.keys()[j] == e.0@);
                    assert(old(self).inner_ok(old(self).borrows.pairs()[j].1));
                    old(self).lemma_inner_ok_grow(*self, e.1);
                }
            }
        }
        Ok(())
    }

    /// Agents with a ledger entry are exactly the agents holding a position.
    pub proof fn lemma_borrowers_hold_positions(self)
        requires
            self.wf(),
        ensures
            forall|x: u64| #[trigger] self.borrowers().contains(x) <==> exists|t: Seq<char>| self.positions().contains_key((x, t)),
    {
        self.borrows.lemma_pairs_in_map();
        assert forall|x: u64| #[trigger] self.borrowers().contains(x) implies exists|t: Seq<char>| self.positions().contains_key((x, t)) by {
            let i = self.borrows.keys().index_of(x);
            assert(self.borrows.keys()[i] == x);
            let inner = self.borrows.pairs()[i].1;
            assert(self.inner_ok(inner));
            inner.lemma_pairs_in_map();
            let t = inner.pairs()[0].0@;
            assert(inner.map().contains_key(t));
            assert(self.positions().contains_key((x, t)));
        }
    }

    /// The positions after `returned` shares of `s` went back from agent `a`.
    pub open spec fn returned_some(self, old_ledger: BorrowLedger, a: u64, s: Seq<char>, returned: u64) -> bool {
        let remaining = old_ledger.borrowed_qty(a, s) - returned;
        if remaining > 0 {
            self.positions() == old_ledger.positions().insert(
                (a, s),
                BorrowPosition { quantity: Quantity(remaining as u64), ..old_ledger.positions()[(a, s)] },
            )
        } else {
            self.positions() == old_ledger.positions().remove((a, s))
        }
    }

    /// `self` is the ledger after agent `a` asked to return `quantity` shares of `s` and `returned` went back.
    pub open spec fn return_step(self, old_ledger: BorrowLedger, a: u64, s: Seq<char>, quantity: u64, returned: u64) -> bool {
        let b = old_ledger.borrowed_qty(a, s);
        &&& returned == (if quantity <= b { quantity as int } else { b })
        &&& b == 0 ==> self.pools() == old_ledger.pools() && self.positions() == old_ledger.positions()
        &&& b > 0 ==> self.pools() == old_ledger.pools().insert(s, Quantity((old_ledger.pool(s) + returned) as u64))
            && self.returned_some(old_ledger, a, s, returned)
    }

    /// Return borrowed shares (when closing a short position).
    ///
    /// Returns the shares actually returned: `quantity` capped at what the
    /// agent has borrowed. A position that reaches zero is closed, and an
    /// agent without positions leaves the ledger.
    pub fn return_shares(&mut self, agent_id: AgentId, symbol: &str, quantity: Quantity) -> (r: Quantity)
        requires
            old(self).wf(),
        ensures
            final(self).wf(),
            final(self).return_step(*old(self), agent_id.0, symbol@, quantity.0, r.0),
            final(self).total_borrowed_of(symbol@) == old(self).total_borrowed_of(symbol@) - r.0,
            forall|s: Seq<char>| s != symbol@ ==> #[trigger] final(self).total_borrowed_of(s) == old(self).total_borrowed_of(s),
            forall|s: Seq<char>| #[trigger] final(self).pool(s) + final(self).total_borrowed_of(s)
                == old(self).pool(s) + old(self).total_borrowed_of(s),
    {
        proof {
            self.lemma_wf_facts();
            self.borrows.lemma_pairs_in_map();
        }
        let borrowed = self.borrowed(agent_id, symbol);
        if borrowed.is_zero() {
            return Quantity(0);
        }
        let to_return = quantity.min(borrowed);
        let sym = symbol.to_owned();
        let ghost a = agent_id.0;
        let ghost sv = symbol@;
        let ghost rq = to_return.0;
        proof {
            assert(old(self).positions().contains_key((a, sv)));
            assert(old(self).pools().contains_key(sv));
            assert(old(self).pool(sv) + old(self).total_borrowed_of(sv) <= u64::MAX);
        }
        match self.available.find(&sym) {
            Some(i) => {
                let cur = *self.available.value_at(i);
                self.available.insert(sym.clone(), Quantity(cur.0 + to_return.0));
            },
            None => {},
        }
        let ghost mid = *self;
        let ghost old_inner: AssocMap<Symbol, BorrowPosition> = old(self).borrows.map()[a];
        let ghost new_inner: AssocMap<Symbol, BorrowPosition>;
        let i = match self.borrows.find(&agent_id) {
            Some(i) => i,
            None => {
                return Quantity(0);
            },
        };
        proof {
            assert(self.borrows.pairs()[i as int].1 == old_inner);
            assert(old_inner.wf());
        }
        let inner = self.borrows.value_at_mut(i);
        match inner.find(&sym) {
            Some(j) => {
                let p = inner.value_at(j);
                let newq = p.quantity.0 - to_return.0;
                proof {
                    assert(*p == old_inner.map()[sv]);
                    assert(p.quantity.0 == old(self).borrowed_qty(a, sv));
                }
                if newq == 0 {
                    inner.remove(&sym);
                } else {
                    let np = BorrowPosition { symbol: p.symbol.clone(), quantity: Quantity(newq), borrowed_at: p.borrowed_at };
                    proof {
                        assert(np == BorrowPosition { quantity: Quantity(newq), ..old(self).positions()[(a, sv)] });
                    }
                    inner.insert(sym.clone(), np);
                }
            },
            None => {},
        }
        let empty = inner.len() == 0;
        proof {
            let e = self.borrows.pairs()[i as int];
            new_inner = e.1;
            AssocMap::lemma_update_at(mid.borrows, self.borrows, i as int, e);
            assert forall|t: Seq<char>| #[trigger] sum_by(self.borrows.pairs(), entry_qty(t))
                == sum_by(mid.borrows.pairs(), entry_qty(t)) - qty_at(old_inner, t) + qty_at(new_inner, t) by {
                lemma_sum_update(mid.borrows.pairs(), i as int, e, entry_qty(t));
            }
        }
        proof {
            let remaining = old(self).borrowed_qty(a, sv) - rq;
            if remaining > 0 {
                assert(new_inner.map() == old_inner.map().insert(sv,
                    BorrowPosition { quantity: Quantity(remaining as u64), ..old(self).positions()[(a, sv)] }));
            } else {
                assert(new_inner.map() == old_inner.map().remove(sv));
            }
        }
        let ghost before_remove = *self;
        if empty {
            self.borrows.remove(&agent_id);
            proof {
                new_inner.lemma_pairs_in_map();
                assert forall|t: Seq<char>| #[trigger] sum_by(self.borrows.pairs(), entry_qty(t))
                    == sum_by(before_remove.borrows.pairs(), entry_qty(t)) by {
                    lemma_sum_remove(before_remove.borrows.pairs(), i as int, entry_qty(t));
                    assert(!new_inner.map().contains_key(t));
                }
                assert(self.borrows.map() == old(self).borrows.map().remove(a));
            }
        } else {
            proof {
                assert(self.borrows.map() == old(self).borrows.map().insert(a, new_inner));
            }
        }
        proof {
            let remaining = old(self).borrowed_qty(a, sv) - rq;
            new_inner.lemma_pairs_in_map();
            assert(self.pools() == old(self).pools().insert(sv, Quantity((old(self).pool(sv) + rq) as u64)));
            if remaining > 0 {
                let np = BorrowPosition { quantity: Quantity(remaining as u64), ..old(self).positions()[(a, sv)] };
                assert forall|k: (u64, Seq<char>)| #[trigger] self.positions().contains_key(k)
                    <==> old(self).positions().insert((a, sv), np).contains_key(k) by {}
                assert forall|k: (u64, Seq<char>)| #[trigger] self.positions().contains_key(k) implies self.positions()[k]
                    == old(self).positions().insert((a, sv), np)[k] by {}
                assert(self.positions() =~= old(self).positions().insert((a, sv), np));
            } else {
                assert forall|k: (u64, Seq<char>)| #[trigger] self.positions().contains_key(k)
                    <==> old(self).positions().remove((a, sv)).contains_key(k) by {
                    if k.0 == a && k.1 != sv && old(self).positions().contains_key(k) {
                        assert(new_inner.map().contains_key(k.1));
                    }
                }
                assert forall|k: (u64, Seq<char>)| #[trigger] self.positions().contains_key(k) implies self.positions()[k]
                    == old(self).positions().remove((a, sv))[k] by {}
                assert(self.positions() =~= old(self).positions().remove((a, sv)));
            }
            // conservation and pool bound
            assert forall|t: Seq<char>| #[trigger] self.pool(t) + self.total_borrowed_of(t)
                == old(self).pool(t) + old(self).total_borrowed_of(t) by {
                if t == sv {
                    assert(self.total_borrowed_of(t) == old(self).total_borrowed_of(t) - rq);
                } else {
                    assert(self.total_borrowed_of(t) == old(self).total_borrowed_of(t));
                }
            }
            assert forall|t: Seq<char>| self.pool(t) + #[trigger] self.total_borrowed_of(t) <= u64::MAX by {
                assert(self.pool(t) + self.total_borrowed_of(t) == old(self).pool(t) + old(self).total_borrowed_of(t));
                assert(old(self).pool(t) + old(self).total_borrowed_of(t) <= u64::MAX);
            }
            // agent entries
            self.borrows.lemma_pairs_in_map();
            old(self).borrows.lemma_pairs_in_map();
            assert forall|k: Seq<char>| old(self).available.map().contains_key(k) implies #[trigger] self.available.map().contains_key(k) by {}
            assert forall|i2: int| 0 <= i2 < self.borrows.pairs().len() implies self.inner_ok(#[trigger] self.borrows.pairs()[i2].1) by {
                let e = self.borrows.pairs()[i2];
                assert(self.borrows.map().contains_key(e.0@));
                if e.0@ != a {
                    assert(old(self).borrows.map().contains_key(e.0@));
                    let j = old(self).borrows.keys().index_of(e.0@);
                    assert(old(self).borrows.keys()[j] == e.0@);
                    assert(old(self).inner_ok(old(self).borrows.pairs()[j].1));
                    old(self).lemma_inner_ok_grow(*self, e.1);
                } else {
                    assert(e.1 == new_inner);
                    assert(new_inner.map().dom().len() > 0);
                    assert forall|k: Seq<char>| #[trigger] new_inner.map().contains_key(k) implies new_inner.map()[k].symbol@ == k
                        && self.available.map().contains_key(k) by {
                        assert(old(self).positions().contains_key((a, k)));
                    }
                    self.lemma_inner_ok_from_map(new_inner);
                }
            }
        }
        to_return
    }

    /// All positions of an agent.
    pub fn agent_positions(&self, agent_id: AgentId) -> (v: Vec<&BorrowPosition>)
        requires
            self.wf(),
        ensures
            forall|i: int| 0 <= i < v@.len() ==> #[trigger] self.positions().contains_key((agent_id.0, v@[i].symbol@))
                && self.positions()[(agent_id.0, v@[i].symbol@)] == *v@[i],
            forall|t: Seq<char>| #[trigger] self.positions().contains_key((agent_id.0, t))
                ==> exists|i: int| 0 <= i < v@.len() && v@[i].symbol@ == t,
            forall|i: int, j: int| 0 <= i < j < v@.len() ==> v@[i].symbol@ != v@[j].symbol@,
    {
        let mut out: Vec<&BorrowPosition> = Vec::new();
        proof {
            self.lemma_wf_facts();
        }
        match self.borrows.get(&agent_id) {
            Some(inner) => {
                proof {
                    inner.lemma_pairs_in_map();
                    self.borrows.lemma_pairs_in_map();
                    let k = self.borrows.keys().index_of(agent_id.0);
                    assert(self.borrows.keys()[k] == agent_id.0);
                    assert(self.inner_ok(self.borrows.pairs()[k].1));
                }
                let n = inner.len();
                let mut j: usize = 0;
                while j < n
                    invariant
                        n == inner.pairs().len(),
                        j <= n,
                        inner.wf(),
                        self.inner_ok(*inner),
                        self.borrows.map().contains_key(agent_id.0),
                        self.borrows.map()[agent_id.0] == *inner,
                        out@.len() == j,
                        forall|i: int| 0 <= i < j ==> *out@[i] == inner.pairs()[i].1,
                        forall|i: int| 0 <= i < n ==> #[trigger] inner.map().contains_key(inner.pairs()[i].0@)
                            && inner.map()[inner.pairs()[i].0@] == inner.pairs()[i].1,
                    decreases n - j,
                {
                    out.push(inner.value_at(j));
                    j += 1;
                }
                proof {
                    assert forall|i: int| 0 <= i < out@.len() implies #[trigger] self.positions().contains_key((agent_id.0, out@[i].symbol@))
                        && self.positions()[(agent_id.0, out@[i].symbol@)] == *out@[i] by {
                        assert(inner.pairs()[i].1.symbol@ == inner.pairs()[i].0@);
                        assert(inner.map().contains_key(inner.pairs()[i].0@));
                    }
                    assert forall|t: Seq<char>| #[trigger] self.positions().contains_key((agent_id.0, t))
                        implies exists|i: int| 0 <= i < out@.len() && out@[i].symbol@ == t by {
                        let i = inner.keys().index_of(t);
                        assert(inner.keys()[i] == t);
                        assert(inner.pairs()[i].1.symbol@ == inner.pairs()[i].0@);
                        assert(out@[i].symbol@ == t);
                    }
                    assert forall|i: int, j2: int| 0 <= i < j2 < out@.len() implies out@[i].symbol@ != out@[j2].symbol@ by {
                        assert(inner.pairs()[i].1.symbol@ == inner.pairs()[i].0@);
                        assert(inner.pairs()[j2].1.symbol@ == inner.pairs()[j2].0@);
                        assert(inner.keys()[i] != inner.keys()[j2]);
                    }
                }
            },
            None => {},
        }
        out
    }

    /// Number of agents with active borrows.
    pub fn borrower_count(&self) -> (n: usize)
        requires
            self.wf(),
        ensures
            n == self.borrowers().len(),
    {
        proof {
            self.borrows.lemma_pairs_in_map();
        }
        self.borrows.len()
    }

    /// Clear all borrows, returning every borrowed share to its pool.
    pub fn clear(&mut self)
        requires
            old(self).wf(),
        ensures
            final(self).wf(),
            final(self).pools().dom() == old(self).pools().dom(),
            forall|s: Seq<char>| #[trigger] final(self).pool(s) == old(self).pool(s) + old(self).total_borrowed_of(s),
            final(self).positions() == Map::<(u64, Seq<char>), BorrowPosition>::empty(),
            final(self).borrowers() == Set::<u64>::empty(),
    {
        proof {
            self.lemma_wf_facts();
            self.available.lemma_pairs_in_map();
        }
        let ghost old_ledger = *self;
        let n = self.available.len();
        let mut extras: Vec<u64> = Vec::new();
        let mut i: usize = 0;
        while i < n
            invariant
                self.wf(),
                *self == old_ledger,
                n == self.available.pairs().len(),
                i <= n,
                extras@.len() == i,
                forall|j: int| 0 <= j < i ==> #[trigger] extras@[j] == self.total_borrowed_of(self.available.keys()[j]),
            decreases n - i,
        {
            let key = self.available.key_at(i);
            let extra = self.total_borrowed(key.as_str());
            extras.push(extra.0);
            i += 1;
        }
        let mut i: usize = 0;
        while i < n
            invariant
                old_ledger.wf(),
                self.available.wf(),
                self.borrows == old_ledger.borrows,
                n == self.available.pairs().len(),
                extras@.len() == n,
                i <= n,
                self.available.keys() == old_ledger.available.keys(),
                forall|j: int| 0 <= j < n ==> #[trigger] extras@[j] == old_ledger.total_borrowed_of(old_ledger.available.keys()[j]),
                forall|k: Seq<char>| #[trigger] self.available.map().contains_key(k) == old_ledger.available.map().contains_key(k),
                forall|j: int| 0 <= j < n ==> #[trigger] self.pool(self.available.keys()[j])
                    == (if j < i { old_ledger.pool(self.available.keys()[j]) + old_ledger.total_borrowed_of(self.available.keys()[j]) }
                        else { old_ledger.pool(self.available.keys()[j]) }),
            decreases n - i,
        {
            let ghost before = *self;
            proof {
                self.available.lemma_pairs_in_map();
                old_ledger.lemma_wf_facts();
                let k = self.available.keys()[i as int];
                assert(self.pool(k) == old_ledger.pool(k));
                assert(old_ledger.pool(k) + old_ledger.total_borrowed_of(k) <= u64::MAX);
            }
            let cur = *self.available.value_at(i);
            let key = self.available.key_at(i).clone();
            self.available.insert(key, Quantity(cur.0 + extras[i]));
            proof {
                assert(self.available.keys() =~= before.available.keys());
                assert forall|j: int| 0 <= j < n implies #[trigger] self.pool(self.available.keys()[j])
                    == (if j < i + 1 { old_ledger.pool(self.available.keys()[j]) + old_ledger.total_borrowed_of(self.available.keys()[j]) }
                        else { old_ledger.pool(self.available.keys()[j]) }) by {
                    if j != i {
                        assert(self.available.keys()[j] != self.available.keys()[i as int]);
                        assert(before.pool(self.available.keys()[j]) == self.pool(self.available.keys()[j]));
                    }
                }
            }
            i += 1;
        }
        let ghost after_loop = *self;
        self.borrows = AssocMap::new();
        proof {
            old_ledger.lemma_wf_facts();
            old_ledger.available.lemma_pairs_in_map();
            // symbols without a pool have nothing borrowed
            assert forall|t: Seq<char>| !old_ledger.available.map().contains_key(t) implies #[trigger] old_ledger.total_borrowed_of(t) == 0 by {
                old_ledger.borrows.lemma_pairs_in_map();
                assert forall|j: int| 0 <= j < old_ledger.borrows.pairs().len() implies #[trigger] entry_qty(t)(old_ledger.borrows.pairs()[j]) == 0 by {
                    let e = old_ledger.borrows.pairs()[j];
                    if e.1.map().contains_key(t) {
                        assert(old_ledger.positions().contains_key((e.0@, t)));
                    }
                }
                lemma_sum_zero(old_ledger.borrows.pairs(), entry_qty(t));
            }
            assert forall|t: Seq<char>| #[trigger] self.pool(t) == old_ledger.pool(t) + old_ledger.total_borrowed_of(t) by {
                assert(self.pool(t) == after_loop.pool(t));
                if self.available.map().contains_key(t) {
                    let j = self.available.keys().index_of(t);
                    assert(self.available.keys()[j] == t);
                    assert(after_loop.pool(after_loop.available.keys()[j]) == old_ledger.pool(t) + old_ledger.total_borrowed_of(t));
                } else {
                    assert(!old_ledger.available.map().contains_key(t));
                    assert(old_ledger.total_borrowed_of(t) == 0);
                }
            }
            assert(self.positions() =~= Map::<(u64, Seq<char>), BorrowPosition>::empty());
            assert(self.borrowers() =~= Set::<u64>::empty());
            assert(self.available.map().dom() =~= old_ledger.available.map().dom());
            assert forall|t: Seq<char>| self.pool(t) + #[trigger] self.total_borrowed_of(t) <= u64::MAX by {
                assert(self.total_borrowed_of(t) == 0);
            }
        }
    }

    /// Returning the shares just borrowed gives all of them back, restores
    /// the pool, the agent's borrowed amount and the symbol's borrowed total,
    /// and, when the agent held no position in the symbol before, leaves the
    /// positions and the borrowers as they were.
    pub proof fn lemma_return_undoes_borrow(
        l0: BorrowLedger,
        l1: BorrowLedger,
        l2: BorrowLedger,
        a: u64,
        s: Seq<char>,
        q: u64,
        tick: Tick,
        r: u64,
    )
        requires
            l0.wf(),
            l2.wf(),
            l1.borrow_step(l0, a, s, q, tick),
            l1.total_borrowed_of(s) == l0.total_borrowed_of(s) + q,
            l2.return_step(l1, a, s, q, r),
            l2.total_borrowed_of(s) == l1.total_borrowed_of(s) - r,
        ensures
            r == q,
            l2.pool(s) == l0.pool(s),
            l2.borrowed_qty(a, s) == l0.borrowed_qty(a, s),
            l2.total_borrowed_of(s) == l0.total_borrowed_of(s),
            l0.pools().contains_key(s) ==> l2.pools() == l0.pools(),
            q > 0 && !l0.positions().contains_key((a, s)) ==> l2.positions() == l0.positions()
                && l2.borrowers() == l0.borrowers(),
    {
        if q > 0 {
            if !l0.positions().contains_key((a, s)) {
                assert(l2.positions() =~= l0.positions());
                l0.lemma_borrowers_hold_positions();
                l2.lemma_borrowers_hold_positions();
                assert(l2.borrowers() =~= l0.borrowers());
            }
        }
        if l0.pools().contains_key(s) {
            assert(l2.pools() =~= l0.pools());
        }
    }
}

impl Default for BorrowLedger {
    /// An empty ledger.
    fn default() -> (l: BorrowLedger)
        ensures
            l.wf(),
            l.pools() == Map::<Seq<char>, Quantity>::empty(),
            l.positions() == Map::<(u64, Seq<char>), BorrowPosition>::empty(),
    {
        BorrowLedger::new()
    }
}

} // verus!
