//! Symbol-to-sector classification with a reverse index from each sector
//! to the symbols filed under it.
use vstd::prelude::*;

use crate::assoc_map::{AssocMap, MapKey};
use crate::market::{Sector, Symbol};
use crate::tiers::{copy_symbols, symbol_views};

verus! {

impl View for Sector {
    type V = Sector;

    open spec fn view(&self) -> Sector {
        *self
    }
}

impl MapKey for Sector {
    fn key_eq(&self, other: &Self) -> (b: bool) {
        *self == *other
    }
}

/// Maps symbols to their industry sectors.
///
/// Every `add` files the symbol under its sector in the reverse index, in
/// the order of the calls; a later `add` of the same symbol replaces its
/// sector in the forward map and files it again under the new sector.
#[derive(Debug)]
pub struct SectorModel {
    symbol_to_sector: AssocMap<Symbol, Sector>,
    sector_to_symbols: AssocMap<Sector, Vec<Symbol>>,
}

impl SectorModel {
    /// The sector of each mapped symbol.
    pub closed spec fn sector_of(self) -> Map<Seq<char>, Sector> {
        self.symbol_to_sector.map()
    }

    /// The symbols filed under each sector that has any, in filing order.
    pub closed spec fn members(self) -> Map<Sector, Seq<Seq<char>>> {
        Map::new(
            |s: Sector| self.sector_to_symbols.map().contains_key(s),
            |s: Sector| symbol_views(self.sector_to_symbols.map()[s]@),
        )
    }

    /// The symbols filed under `s`, empty when none are.
    pub open spec fn members_of(self, s: Sector) -> Seq<Seq<char>> {
        if self.members().contains_key(s) {
            self.members()[s]
        } else {
            Seq::empty()
        }
    }

    /// The mapped symbols, in the order they were first added.
    pub closed spec fn symbol_order(self) -> Seq<Seq<char>> {
        self.symbol_to_sector.keys()
    }

    /// The sectors that have symbols, in the order they first got one.
    pub closed spec fn sector_order(self) -> Seq<Sector> {
        self.sector_to_symbols.keys()
    }

    /// Internal consistency of the two indices.
    pub closed spec fn wf(self) -> bool {
        &&& self.symbol_to_sector.wf()
        &&& self.sector_to_symbols.wf()
    }

    /// The order lists hold exactly the keys of the maps, once each.
    pub proof fn lemma_orders(self)
        requires
            self.wf(),
        ensures
            self.symbol_order().no_duplicates(),
            self.sector_order().no_duplicates(),
            forall|k: Seq<char>| #[trigger] self.sector_of().contains_key(k) <==> self.symbol_order().contains(k),
            forall|s: Sector| #[trigger] self.members().contains_key(s) <==> self.sector_order().contains(s),
            self.sector_of().dom().len() == self.symbol_order().len(),
    {
        self.symbol_to_sector.lemma_pairs_in_map();
    }

    /// An empty model.
    pub fn new() -> (m: SectorModel)
        ensures
            m.wf(),
            m.sector_of() == Map::<Seq<char>, Sector>::empty(),
            m.members() == Map::<Sector, Seq<Seq<char>>>::empty(),
            m.symbol_order() == Seq::<Seq<char>>::empty(),
            m.sector_order() == Seq::<Sector>::empty(),
    {
        let m = SectorModel { symbol_to_sector: AssocMap::new(), sector_to_symbols: AssocMap::new() };
        assert(m.members() =~= Map::<Sector, Seq<Seq<char>>>::empty());
        m
    }

    /// File `symbol` under `sector`.
    pub fn add(&mut self, symbol: &str, sector: Sector)
        requires
            old(self).wf(),
        ensures
            final(self).wf(),
            final(self).sector_of() == old(self).sector_of().insert(symbol@, sector),
            final(self).members() == old(self).members().insert(sector, old(self).members_of(sector).push(symbol@)),
            old(self).sector_of().contains_key(symbol@) ==> final(self).symbol_order() == old(self).symbol_order(),
            !old(self).sector_of().contains_key(symbol@) ==> final(self).symbol_order() == old(self).symbol_order().push(symbol@),
            old(self).members().contains_key(sector) ==> final(self).sector_order() == old(self).sector_order(),
            !old(self).members().contains_key(sector) ==> final(self).sector_order() == old(self).sector_order().push(sector),
    {
        let sym: Symbol = symbol.to_owned();
        let ghost old_self = *self;
        proof {
            old_self.symbol_to_sector.lemma_pairs_in_map();
        }
        self.symbol_to_sector.insert(sym.clone(), sector);
        let mut list: Vec<Symbol> = match self.sector_to_symbols.get(&sector) {
            Some(v) => copy_symbols(v),
            None => Vec::new(),
        };
        let ghost prior = symbol_views(list@);
        assert(prior == old_self.members_of(sector));
        list.push(sym);
        assert(symbol_views(list@) =~= prior.push(symbol@));
        self.sector_to_symbols.insert(sector, list);
        proof {
            assert(self.members() =~= old_self.members().insert(sector, old_self.members_of(sector).push(symbol@)));
            if old_self.sector_of().contains_key(symbol@) {
                assert(self.symbol_to_sector.pairs() == old_self.symbol_to_sector.pairs().update(
                    old_self.symbol_to_sector.keys().index_of(symbol@), (sym, sector)));
                assert(self.symbol_order() =~= old_self.symbol_order());
            } else {
                assert(self.symbol_order() =~= old_self.symbol_order().push(symbol@));
            }
            if old_self.members().contains_key(sector) {
                assert(self.sector_order() =~= old_self.sector_order());
            } else {
                assert(self.sector_order() =~= old_self.sector_order().push(sector));
            }
        }
    }

    /// The sector of `symbol`, if it is mapped.
    pub fn sector(&self, symbol: &Symbol) -> (r: Option<Sector>)
        requires
            self.wf(),
        ensures
            r == (if self.sector_of().contains_key(symbol@) {
                Some(self.sector_of()[symbol@])
            } else {
                None
            }),
    {
        match self.symbol_to_sector.get(symbol) {
            Some(s) => Some(*s),
            None => None,
        }
    }

    /// The symbols filed under `sector`, in filing order.
    pub fn symbols_in_sector(&self, sector: Sector) -> (r: Vec<Symbol>)
        requires
            self.wf(),
        ensures
            symbol_views(r@) == self.members_of(sector),
    {
        match self.sector_to_symbols.get(&sector) {
            Some(v) => copy_symbols(v),
            None => {
                let r: Vec<Symbol> = Vec::new();
                assert(symbol_views(r@) =~= Seq::<Seq<char>>::empty());
                r
            },
        }
    }

    /// Whether `symbol` is mapped to `sector`.
    pub fn is_in_sector(&self, symbol: &Symbol, sector: Sector) -> (b: bool)
        requires
            self.wf(),
        ensures
            b == (self.sector_of().contains_key(symbol@) && self.sector_of()[symbol@] == sector),
    {
        match self.symbol_to_sector.get(symbol) {
            Some(s) => *s == sector,
            None => false,
        }
    }

    /// All mapped symbols, in the order they were first added.
    pub fn symbols(&self) -> (r: Vec<Symbol>)
        requires
            self.wf(),
        ensures
            symbol_views(r@) == self.symbol_order(),
    {
        let mut out: Vec<Symbol> = Vec::new();
        let n = self.symbol_to_sector.len();
        let mut i: usize = 0;
        while i < n
            invariant
                n == self.symbol_to_sector.pairs().len(),
                i <= n,
                symbol_views(out@) == self.symbol_order().take(i as int),
            decreases n - i,
        {
            let k = self.symbol_to_sector.key_at(i).clone();
            proof {
                assert(self.symbol_order()[i as int] == self.symbol_to_sector.pairs()[i as int].0@);
                assert(k@ == self.symbol_order()[i as int]);
            }
            let ghost prev = out@;
            out.push(k);
            proof {
                assert(symbol_views(out@) =~= symbol_views(prev).push(k@));
                assert(symbol_views(out@) =~= self.symbol_order().take(i as int + 1));
            }
            i += 1;
        }
        assert(self.symbol_order().take(n as int) =~= self.symbol_order());
        out
    }

    /// All sectors that have symbols, in the order they first got one.
    pub fn active_sectors(&self) -> (r: Vec<Sector>)
        requires
            self.wf(),
        ensures
            r@ == self.sector_order(),
    {
        let mut out: Vec<Sector> = Vec::new();
        let n = self.sector_to_symbols.len();
        let mut i: usize = 0;
        while i < n
            invariant
                n == self.sector_to_symbols.pairs().len(),
                i <= n,
                out@ == self.sector_order().take(i as int),
            decreases n - i,
        {
            out.push(*self.sector_to_symbols.key_at(i));
            proof {
                assert(out@ =~= self.sector_order().take(i as int + 1));
            }
            i += 1;
        }
        assert(self.sector_order().take(n as int) =~= self.sector_order());
        out
    }

    /// Number of mapped symbols.
    pub fn len(&self) -> (n: usize)
        requires
            self.wf(),
        ensures
            n == self.sector_of().dom().len(),
    {
        proof {
            self.lemma_orders();
        }
        self.symbol_to_sector.len()
    }

    /// Whether no symbol is mapped.
    pub fn is_empty(&self) -> (b: bool)
        requires
            self.wf(),
        ensures
            b == (self.sector_of().dom().len() == 0),
    {
        proof {
            self.lemma_orders();
        }
        self.symbol_to_sector.len() == 0
    }
}

impl Default for SectorModel {
    fn default() -> (m: SectorModel)
        ensures
            m.wf(),
            m.sector_of() == Map::<Seq<char>, Sector>::empty(),
            m.members() == Map::<Sector, Seq<Seq<char>>>::empty(),
    {
        SectorModel::new()
    }
}

/// After `add(symbol, sector)`, the symbol's sector is `sector` and it is
/// listed, last, among the symbols of that sector.
pub proof fn lemma_add_then_lookup(before: SectorModel, after: SectorModel, symbol: Seq<char>, sector: Sector)
    requires
        before.wf(),
        after.sector_of() == before.sector_of().insert(symbol, sector),
        after.members() == before.members().insert(sector, before.members_of(sector).push(symbol)),
    ensures
        after.sector_of().contains_key(symbol),
        after.sector_of()[symbol] == sector,
        after.members_of(sector).last() == symbol,
        after.members_of(sector).len() == before.members_of(sector).len() + 1,
        forall|other: Sector| other != sector ==> #[trigger] after.members_of(other) == before.members_of(other),
{
}

} // verus!
