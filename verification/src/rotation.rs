//! The sector universe of a sector rotation strategy: which sectors it
//! watches, their symbols, which news concerns it, and when it may
//! rebalance again.
use vstd::prelude::*;

use crate::assoc_map::AssocMap;
use crate::market::{Sector, Symbol, Tick};
use crate::tiers::{copy_symbols, symbol_views, CondView, WakeCondition};

verus! {

/// Concatenation of the symbol lists in order.
pub open spec fn concat_all(lists: Seq<Seq<Seq<char>>>) -> Seq<Seq<char>>
    decreases lists.len(),
{
    if lists.len() == 0 {
        Seq::empty()
    } else {
        concat_all(lists.drop_last()) + lists.last()
    }
}

/// Sectors to watch with their constituent symbols.
#[derive(Debug)]
pub struct SectorUniverse {
    symbols_per_sector: AssocMap<Sector, Vec<Symbol>>,
}

impl SectorUniverse {
    /// The watched sectors, in the order they were first added.
    pub closed spec fn sectors(self) -> Seq<Sector> {
        self.symbols_per_sector.keys()
    }

    /// The symbols of each watched sector.
    pub closed spec fn members(self) -> Map<Sector, Seq<Seq<char>>> {
        Map::new(
            |s: Sector| self.symbols_per_sector.map().contains_key(s),
            |s: Sector| symbol_views(self.symbols_per_sector.map()[s]@),
        )
    }

    /// The symbol lists, in sector order.
    pub closed spec fn lists(self) -> Seq<Seq<Seq<char>>> {
        self.symbols_per_sector.pairs().map_values(|e: (Sector, Vec<Symbol>)| symbol_views(e.1@))
    }

    /// All watched symbols, sector by sector.
    pub open spec fn symbols(self) -> Seq<Seq<char>> {
        concat_all(self.lists())
    }

    /// Internal consistency.
    pub closed spec fn wf(self) -> bool {
        self.symbols_per_sector.wf()
    }

    /// No sectors.
    pub fn new() -> (u: SectorUniverse)
        ensures
            u.wf(),
            u.sectors() == Seq::<Sector>::empty(),
            u.members() == Map::<Sector, Seq<Seq<char>>>::empty(),
    {
        let u = SectorUniverse { symbols_per_sector: AssocMap::new() };
        assert(u.members() =~= Map::<Sector, Seq<Seq<char>>>::empty());
        u
    }

    /// Watch `sector` with `symbols`, replacing its list if it was watched.
    pub fn with_sector(self, sector: Sector, symbols: Vec<Symbol>) -> (u: SectorUniverse)
        requires
            self.wf(),
        ensures
            u.wf(),
            u.members() == self.members().insert(sector, symbol_views(symbols@)),
            self.sectors().contains(sector) ==> u.sectors() == self.sectors(),
            !self.sectors().contains(sector) ==> u.sectors() == self.sectors().push(sector),
    {
        let mut u = self;
        let ghost before = u;
        u.symbols_per_sector.insert(sector, symbols);
        proof {
            assert(u.members() =~= before.members().insert(sector, symbol_views(symbols@)));
            if before.sectors().contains(sector) {
                assert(u.sectors() =~= before.sectors());
            } else {
                assert(u.sectors() =~= before.sectors().push(sector));
            }
        }
        u
    }

    /// The watched sectors.
    pub fn watched_sectors(&self) -> (v: Vec<Sector>)
        requires
            self.wf(),
        ensures
            v@ == self.sectors(),
    {
        let mut out: Vec<Sector> = Vec::new();
        let n = self.symbols_per_sector.len();
        let mut i: usize = 0;
        while i < n
            invariant
                n == self.symbols_per_sector.pairs().len(),
                i <= n,
                out@ == self.sectors().take(i as int),
            decreases n - i,
        {
            out.push(*self.symbols_per_sector.key_at(i));
            proof {
                assert(out@ =~= self.sectors().take(i as int + 1));
            }
            i += 1;
        }
        assert(self.sectors().take(n as int) =~= self.sectors());
        out
    }

    /// All watched symbols, sector by sector.
    pub fn all_symbols(&self) -> (v: Vec<Symbol>)
        requires
            self.wf(),
        ensures
            symbol_views(v@) == self.symbols(),
    {
        let mut out: Vec<Symbol> = Vec::new();
        let n = self.symbols_per_sector.len();
        let mut i: usize = 0;
        while i < n
            invariant
                n == self.symbols_per_sector.pairs().len(),
                n == self.lists().len(),
                i <= n,
                symbol_views(out@) == concat_all(self.lists().take(i as int)),
            decreases n - i,
        {
            let list = copy_symbols(self.symbols_per_sector.value_at(i));
            let ghost prev = out@;
            let mut k: usize = 0;
            while k < list.len()
                invariant
                    k <= list@.len(),
                    symbol_views(out@) == symbol_views(prev) + symbol_views(list@).take(k as int),
                decreases list@.len() - k,
            {
                let ghost mid = out@;
                out.push(list[k].clone());
                proof {
                    assert(symbol_views(out@) =~= symbol_views(mid).push(list@[k as int]@));
                    assert(symbol_views(list@).take(k as int + 1) =~= symbol_views(list@).take(k as int).push(list@[k as int]@));
                    assert(symbol_views(out@) =~= symbol_views(prev) + symbol_views(list@).take(k as int + 1));
                }
                k += 1;
            }
            proof {
                assert(symbol_views(list@).take(list@.len() as int) =~= symbol_views(list@));
                assert(self.lists()[i as int] == symbol_views(list@));
                assert(self.lists().take(i as int + 1).drop_last() =~= self.lists().take(i as int));
            }
            i += 1;
        }
        assert(self.lists().take(n as int) =~= self.lists());
        out
    }

    /// Whether `sector` is watched.
    pub fn watches_sector(&self, sector: Sector) -> (b: bool)
        requires
            self.wf(),
        ensures
            b == self.members().contains_key(sector),
    {
        self.symbols_per_sector.get(&sector).is_some()
    }

    /// Whether `symbol` belongs to a watched sector.
    pub fn watches_symbol(&self, symbol: &Symbol) -> (b: bool)
        requires
            self.wf(),
        ensures
            b == self.symbols().contains(symbol@),
    {
        let all = self.all_symbols();
        let mut i: usize = 0;
        while i < all.len()
            invariant
                i <= all@.len(),
                symbol_views(all@) == self.symbols(),
                forall|j: int| 0 <= j < i ==> all@[j]@ != symbol@,
            decreases all@.len() - i,
        {
            if all[i] == *symbol {
                proof {
                    assert(symbol_views(all@)[i as int] == symbol@);
                }
                return true;
            }
            i += 1;
        }
        proof {
            if self.symbols().contains(symbol@) {
                let j = choose|j: int| 0 <= j < self.symbols().len() && self.symbols()[j] == symbol@;
                assert(symbol_views(all@)[j] == all@[j]@);
            }
        }
        false
    }

    /// Whether news about `sector` (for sector news) or else about `symbol`
    /// concerns the watched universe.
    pub fn is_relevant(&self, sector: Option<Sector>, symbol: Option<&Symbol>) -> (b: bool)
        requires
            self.wf(),
        ensures
            b == (match sector {
                Some(s) => self.members().contains_key(s),
                None => match symbol {
                    Some(x) => self.symbols().contains(x@),
                    None => false,
                },
            }),
    {
        match sector {
            Some(s) => self.watches_sector(s),
            None => match symbol {
                Some(x) => self.watches_symbol(x),
                None => false,
            },
        }
    }

    /// The conditions to register at spawn: one news subscription for all
    /// watched symbols.
    pub fn initial_wake_conditions(&self) -> (v: Vec<WakeCondition>)
        requires
            self.wf(),
        ensures
            v@.len() == 1,
            v@[0]@ == (CondView::NewsEvent { symbols: self.symbols() }),
    {
        let mut v: Vec<WakeCondition> = Vec::new();
        v.push(WakeCondition::on_news(self.all_symbols()));
        v
    }
}

/// Whether enough ticks have passed since the last rebalance.
pub fn rebalance_due(tick: Tick, last_rebalance_tick: Tick, min_interval: u64) -> (b: bool)
    requires
        last_rebalance_tick + min_interval <= u64::MAX,
    ensures
        b == (tick >= last_rebalance_tick + min_interval),
{
    !(tick < last_rebalance_tick + min_interval)
}

} // verus!
