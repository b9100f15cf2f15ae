//! Short lists with inline storage: the agents of an index bucket, the
//! conditions an agent registered, the symbols of a news subscription and
//! the strategies of an agent. Each holds a `SmallVec`; what a list holds
//! is named by a spec function, and the few `SmallVec` operations used are
//! trusted to act on those contents as the crate's source shows.
use vstd::prelude::*;

use smallvec::SmallVec;

use crate::market::{AgentId, Symbol};
use crate::reactive::StrategyKind;
use crate::tiers::{symbol_views, CondView, WakeCondition};

verus! {

/// Agents, in insertion order.
#[verifier::external_body]
#[derive(Debug)]
pub struct AgentList {
    items: SmallVec<[AgentId; 8]>,
}

/// The agents an `AgentList` holds, in order.
pub uninterp spec fn agent_items(l: AgentList) -> Seq<AgentId>;

impl View for AgentList {
    type V = Seq<AgentId>;

    open spec fn view(&self) -> Seq<AgentId> {
        agent_items(*self)
    }
}

impl AgentList {
    /// `SmallVec::new`: an empty list.
    #[verifier::external_body]
    pub(crate) fn new() -> (l: AgentList)
        ensures
            agent_items(l) == Seq::<AgentId>::empty(),
    {
        AgentList { items: SmallVec::new() }
    }

    /// `SmallVec::push`: append an agent at the end.
    #[verifier::external_body]
    pub(crate) fn push(&mut self, a: AgentId)
        ensures
            agent_items(*final(self)) == agent_items(*old(self)).push(a),
    {
        self.items.push(a);
    }

    /// `SmallVec::len`: the number of agents.
    #[verifier::external_body]
    pub(crate) fn len(&self) -> (n: usize)
        ensures
            n == agent_items(*self).len(),
    {
        self.items.len()
    }

    /// Indexing a `SmallVec`: the agent at position `i`.
    #[verifier::external_body]
    pub(crate) fn get(&self, i: usize) -> (a: AgentId)
        requires
            i < agent_items(*self).len(),
        ensures
            a == agent_items(*self)[i as int],
    {
        self.items[i]
    }
}

/// Wake conditions, in insertion order.
#[verifier::external_body]
#[derive(Debug)]
pub struct ConditionList {
    items: SmallVec<[WakeCondition; 4]>,
}

/// The views of the conditions a `ConditionList` holds, in order.
pub uninterp spec fn condition_items(l: ConditionList) -> Seq<CondView>;

impl View for ConditionList {
    type V = Seq<CondView>;

    open spec fn view(&self) -> Seq<CondView> {
        condition_items(*self)
    }
}

impl ConditionList {
    /// `SmallVec::new`: an empty list.
    #[verifier::external_body]
    pub(crate) fn new() -> (l: ConditionList)
        ensures
            condition_items(l) == Seq::<CondView>::empty(),
    {
        ConditionList { items: SmallVec::new() }
    }

    /// `SmallVec::push`: append a condition at the end.
    #[verifier::external_body]
    pub(crate) fn push(&mut self, c: WakeCondition)
        ensures
            condition_items(*final(self)) == condition_items(*old(self)).push(c@),
    {
        self.items.push(c);
    }

    /// `SmallVec::len`: the number of conditions.
    #[verifier::external_body]
    pub(crate) fn len(&self) -> (n: usize)
        ensures
            n == condition_items(*self).len(),
    {
        self.items.len()
    }

    /// Indexing a `SmallVec`: the condition at position `i`.
    #[verifier::external_body]
    pub(crate) fn get(&self, i: usize) -> (c: &WakeCondition)
        requires
            i < condition_items(*self).len(),
        ensures
            c@ == condition_items(*self)[i as int],
    {
        &self.items[i]
    }

    /// Copies of the conditions, in order.
    pub fn to_vec(&self) -> (v: Vec<WakeCondition>)
        ensures
            crate::tiers::cond_views(v@) == self@,
    {
        let mut out: Vec<WakeCondition> = Vec::new();
        let n = self.len();
        let mut i: usize = 0;
        while i < n
            invariant
                n == self@.len(),
                i <= n,
                crate::tiers::cond_views(out@) == self@.take(i as int),
            decreases n - i,
        {
            let c = self.get(i).duplicate();
            let ghost prev = out@;
            out.push(c);
            proof {
                assert(crate::tiers::cond_views(out@) =~= crate::tiers::cond_views(prev).push(c@));
                assert(self@.take(i as int + 1) =~= self@.take(i as int).push(self@[i as int]));
            }
            i += 1;
        }
        assert(self@.take(n as int) =~= self@);
        out
    }
}

/// Symbols, in order.
#[verifier::external_body]
#[derive(Debug, PartialEq)]
pub struct SymbolList {
    items: SmallVec<[Symbol; 4]>,
}

/// The views of the symbols a `SymbolList` holds, in order.
pub uninterp spec fn symbol_items(l: SymbolList) -> Seq<Seq<char>>;

impl View for SymbolList {
    type V = Seq<Seq<char>>;

    open spec fn view(&self) -> Seq<Seq<char>> {
        symbol_items(*self)
    }
}

impl Clone for SymbolList {
    /// `SmallVec::clone`: the same symbols, in order.
    #[verifier::external_body]
    fn clone(&self) -> (l: SymbolList)
        ensures
            symbol_items(l) == symbol_items(*self),
    {
        SymbolList { items: self.items.clone() }
    }
}

impl SymbolList {
    /// `SmallVec::from_vec`: the symbols of a vector, in order.
    #[verifier::external_body]
    pub(crate) fn from_vec(v: Vec<Symbol>) -> (l: SymbolList)
        ensures
            symbol_items(l) == symbol_views(v@),
    {
        SymbolList { items: SmallVec::from_vec(v) }
    }

    /// `SmallVec::len`: the number of symbols.
    #[verifier::external_body]
    pub(crate) fn len(&self) -> (n: usize)
        ensures
            n == symbol_items(*self).len(),
    {
        self.items.len()
    }

    /// Indexing a `SmallVec`: the symbol at position `i`.
    #[verifier::external_body]
    pub(crate) fn get(&self, i: usize) -> (s: &Symbol)
        requires
            i < symbol_items(*self).len(),
        ensures
            s@ == symbol_items(*self)[i as int],
    {
        &self.items[i]
    }

    /// The symbols as a vector, in order.
    pub fn to_vec(&self) -> (v: Vec<Symbol>)
        ensures
            symbol_views(v@) == self@,
    {
        let mut out: Vec<Symbol> = Vec::new();
        let n = self.len();
        let mut i: usize = 0;
        while i < n
            invariant
                n == self@.len(),
                i <= n,
                symbol_views(out@) == self@.take(i as int),
            decreases n - i,
        {
            let s = self.get(i).clone();
            let ghost prev = out@;
            out.push(s);
            proof {
                assert(symbol_views(out@) =~= symbol_views(prev).push(s@));
                assert(self@.take(i as int + 1) =~= self@.take(i as int).push(self@[i as int]));
            }
            i += 1;
        }
        assert(self@.take(n as int) =~= self@);
        out
    }
}

/// Strategy kinds, in order.
#[verifier::external_body]
#[derive(Debug)]
pub struct StrategyList {
    items: SmallVec<[StrategyKind; 4]>,
}

/// The strategy kinds a `StrategyList` holds, in order.
pub uninterp spec fn strategy_items(l: StrategyList) -> Seq<StrategyKind>;

impl View for StrategyList {
    type V = Seq<StrategyKind>;

    open spec fn view(&self) -> Seq<StrategyKind> {
        strategy_items(*self)
    }
}

impl StrategyList {
    /// `SmallVec::from_vec`: the kinds of a vector, in order.
    #[verifier::external_body]
    pub(crate) fn from_vec(v: Vec<StrategyKind>) -> (l: StrategyList)
        ensures
            strategy_items(l) == v@,
    {
        StrategyList { items: SmallVec::from_vec(v) }
    }

    /// `SmallVec::len`: the number of kinds.
    #[verifier::external_body]
    pub(crate) fn len(&self) -> (n: usize)
        ensures
            n == strategy_items(*self).len(),
    {
        self.items.len()
    }

    /// Indexing a `SmallVec`: the kind at position `i`.
    #[verifier::external_body]
    pub(crate) fn get(&self, i: usize) -> (k: StrategyKind)
        requires
            i < strategy_items(*self).len(),
        ensures
            k == strategy_items(*self)[i as int],
    {
        self.items[i]
    }

    /// The kinds as a vector, in order.
    pub fn to_vec(&self) -> (v: Vec<StrategyKind>)
        ensures
            v@ == self@,
    {
        let mut out: Vec<StrategyKind> = Vec::new();
        let n = self.len();
        let mut i: usize = 0;
        while i < n
            invariant
                n == self@.len(),
                i <= n,
                out@ == self@.take(i as int),
            decreases n - i,
        {
            out.push(self.get(i));
            proof {
                assert(out@ =~= self@.take(i as int + 1));
            }
            i += 1;
        }
        assert(self@.take(n as int) =~= self@);
        out
    }
}

} // verus!
