//! Wake condition index for reactive agents.
//!
//! Conditions are kept in buckets: price thresholds keyed by (symbol,
//! price) for each direction, exact wake ticks keyed by tick, news
//! subscriptions keyed by symbol, plus a list of interval triggers and a
//! reverse index from agent to its registered conditions.
use vstd::prelude::*;

use crate::assoc_map::{AssocMap, MapKey, lemma_sum_push, lemma_sum_update, lemma_sum_remove, sum_by};
use crate::market::{AgentId, Price, Symbol, Tick};
use crate::lists::{AgentList, ConditionList};
use crate::tiers::{CondView, ConditionUpdate, CrossDirection, OrderedPrice, WakeCondition, cond_views, symbol_views};

verus! {

/// Key of a price bucket: a symbol and a threshold.
#[derive(Debug, Clone)]
pub struct PriceKey {
    pub symbol: Symbol,
    pub price: OrderedPrice,
}

impl View for PriceKey {
    type V = (Seq<char>, i64);

    open spec fn view(&self) -> (Seq<char>, i64) {
        (self.symbol@, self.price.0)
    }
}

impl MapKey for PriceKey {
    fn key_eq(&self, other: &Self) -> (b: bool) {
        self.symbol == other.symbol && self.price.0 == other.price.0
    }
}

impl MapKey for u64 {
    fn key_eq(&self, other: &Self) -> (b: bool) {
        *self == *other
    }
}

/// Mathematical value of the whole index.
#[verifier::ext_equal]
pub struct IndexView {
    /// Agents watching for the price to rise to a threshold, by (symbol, threshold).
    pub above: Map<(Seq<char>, i64), Seq<AgentId>>,
    /// Agents watching for the price to fall to a threshold, by (symbol, threshold).
    pub below: Map<(Seq<char>, i64), Seq<AgentId>>,
    /// Agents to wake at a tick.
    pub exact: Map<u64, Seq<AgentId>>,
    /// Interval triggers: (agent, next wake, interval).
    pub intervals: Seq<(AgentId, u64, u64)>,
    /// News subscribers by symbol.
    pub news: Map<Seq<char>, Seq<AgentId>>,
    /// Registered conditions by agent.
    pub conditions: Map<u64, Seq<CondView>>,
}

/// The agents of a bucket, empty when the bucket is absent.
pub open spec fn bucket<K>(m: Map<K, Seq<AgentId>>, k: K) -> Seq<AgentId> {
    if m.contains_key(k) {
        m[k]
    } else {
        Seq::empty()
    }
}

/// Every agent other than `a`.
pub open spec fn not_agent(a: AgentId) -> spec_fn(AgentId) -> bool {
    |x: AgentId| x != a
}

/// Add an agent at the end of a bucket.
pub open spec fn bucket_push<K>(m: Map<K, Seq<AgentId>>, k: K, a: AgentId) -> Map<K, Seq<AgentId>> {
    m.insert(k, bucket(m, k).push(a))
}

/// Remove every occurrence of an agent from a bucket; an emptied bucket disappears.
pub open spec fn bucket_drop<K>(m: Map<K, Seq<AgentId>>, k: K, a: AgentId) -> Map<K, Seq<AgentId>> {
    if !m.contains_key(k) {
        m
    } else {
        let kept = m[k].filter(not_agent(a));
        if kept.len() == 0 {
            m.remove(k)
        } else {
            m.insert(k, kept)
        }
    }
}

/// Subscribe an agent to each symbol in turn.
pub open spec fn subscribe_all(m: Map<Seq<char>, Seq<AgentId>>, syms: Seq<Seq<char>>, a: AgentId) -> Map<Seq<char>, Seq<AgentId>>
    decreases syms.len(),
{
    if syms.len() == 0 {
        m
    } else {
        bucket_push(subscribe_all(m, syms.drop_last(), a), syms.last(), a)
    }
}

/// Unsubscribe an agent from each symbol in turn.
pub open spec fn unsubscribe_all(m: Map<Seq<char>, Seq<AgentId>>, syms: Seq<Seq<char>>, a: AgentId) -> Map<Seq<char>, Seq<AgentId>>
    decreases syms.len(),
{
    if syms.len() == 0 {
        m
    } else {
        bucket_drop(unsubscribe_all(m, syms.drop_last(), a), syms.last(), a)
    }
}

/// The index after registering condition `c` for agent `a`.
pub open spec fn register_view(v: IndexView, a: AgentId, c: CondView) -> IndexView {
    let conditions = v.conditions.insert(
        a.0,
        (if v.conditions.contains_key(a.0) { v.conditions[a.0] } else { Seq::empty() }).push(c),
    );
    match c {
        CondView::PriceCross { symbol, threshold, direction } => match direction {
            CrossDirection::Above => IndexView { above: bucket_push(v.above, (symbol, threshold), a), conditions, ..v },
            CrossDirection::Below => IndexView { below: bucket_push(v.below, (symbol, threshold), a), conditions, ..v },
        },
        CondView::TimeExact { wake_tick } => IndexView { exact: bucket_push(v.exact, wake_tick, a), conditions, ..v },
        CondView::TimeInterval { next_wake, interval } => IndexView {
            intervals: v.intervals.push((a, next_wake, interval)),
            conditions,
            ..v
        },
        CondView::NewsEvent { symbols } => IndexView { news: subscribe_all(v.news, symbols, a), conditions, ..v },
    }
}

/// The index after unregistering condition `c` for agent `a`. The agent's
/// entry in the reverse index stays, possibly empty. An interval condition
/// is told apart by its interval, since its trigger's next wake moves on as
/// it fires: the agent's triggers with that interval are removed, its others
/// stay.
pub open spec fn unregister_view(v: IndexView, a: AgentId, c: CondView) -> IndexView {
    let conditions = if v.conditions.contains_key(a.0) {
        v.conditions.insert(a.0, v.conditions[a.0].filter(|x: CondView| x != c))
    } else {
        v.conditions
    };
    match c {
        CondView::PriceCross { symbol, threshold, direction } => match direction {
            CrossDirection::Above => IndexView { above: bucket_drop(v.above, (symbol, threshold), a), conditions, ..v },
            CrossDirection::Below => IndexView { below: bucket_drop(v.below, (symbol, threshold), a), conditions, ..v },
        },
        CondView::TimeExact { wake_tick } => IndexView { exact: bucket_drop(v.exact, wake_tick, a), conditions, ..v },
        CondView::TimeInterval { interval, .. } => IndexView {
            intervals: v.intervals.filter(not_trigger_of(a, interval)),
            conditions,
            ..v
        },
        CondView::NewsEvent { symbols } => IndexView { news: unsubscribe_all(v.news, symbols, a), conditions, ..v },
    }
}

/// Register each condition in turn.
pub open spec fn register_each(v: IndexView, a: AgentId, cs: Seq<CondView>) -> IndexView
    decreases cs.len(),
{
    if cs.len() == 0 {
        v
    } else {
        register_view(register_each(v, a, cs.drop_last()), a, cs.last())
    }
}

/// Unregister each condition in turn.
pub open spec fn unregister_each(v: IndexView, a: AgentId, cs: Seq<CondView>) -> IndexView
    decreases cs.len(),
{
    if cs.len() == 0 {
        v
    } else {
        unregister_view(unregister_each(v, a, cs.drop_last()), a, cs.last())
    }
}

/// Filtering by a predicate that every element meets keeps the sequence.
proof fn lemma_filter_keeps_all<A>(s: Seq<A>, p: spec_fn(A) -> bool)
    requires
        forall|i: int| 0 <= i < s.len() ==> p(#[trigger] s[i]),
    ensures
        s.filter(p) == s,
    decreases s.len(),
{
    if s.len() > 0 {
        let init = s.drop_last();
        assert forall|i: int| 0 <= i < init.len() implies p(#[trigger] init[i]) by {
            assert(init[i] == s[i]);
        }
        lemma_filter_keeps_all(init, p);
        init.lemma_filter_push(s.last(), p);
        assert(init.push(s.last()) =~= s);
        assert(p(s[s.len() - 1]));
    } else {
        reveal(Seq::filter);
        assert(s.filter(p) =~= s);
    }
}

/// Pushing an agent that is not in a bucket and then dropping it restores the buckets.
proof fn lemma_push_then_drop<K>(m: Map<K, Seq<AgentId>>, k: K, a: AgentId)
    requires
        !bucket(m, k).contains(a),
        m.contains_key(k) ==> m[k].len() > 0,
    ensures
        bucket_drop(bucket_push(m, k, a), k, a) == m,
{
    let pushed = bucket(m, k).push(a);
    assert(pushed.drop_last() =~= bucket(m, k));
    bucket(m, k).lemma_filter_push(a, not_agent(a));
    assert(bucket(m, k).filter(not_agent(a)) =~= bucket(m, k)) by {
        assert forall|i: int| 0 <= i < bucket(m, k).len() implies (not_agent(a))(#[trigger] bucket(m, k)[i]) by {
            assert(bucket(m, k).contains(bucket(m, k)[i]));
        }
        lemma_filter_keeps_all(bucket(m, k), not_agent(a));
    }
    assert(pushed.filter(not_agent(a)) == bucket(m, k));
    if m.contains_key(k) {
        assert(bucket_drop(bucket_push(m, k, a), k, a) =~= m);
    } else {
        assert(bucket(m, k).len() == 0);
        assert(bucket_drop(bucket_push(m, k, a), k, a) =~= m);
    }
}

/// Unregistering a price or exact-tick condition right after registering it
/// restores the index, for an agent that already has an entry in the reverse
/// index without that condition and is not yet in the condition's bucket
/// (a bucket that is present being non-empty, as the index keeps them).
pub proof fn lemma_unregister_undoes_register(v: IndexView, a: AgentId, c: CondView)
    requires
        c is PriceCross || c is TimeExact,
        v.conditions.contains_key(a.0),
        !v.conditions[a.0].contains(c),
        c matches CondView::PriceCross { symbol, threshold, direction } ==> {
            let side = if direction == CrossDirection::Above { v.above } else { v.below };
            &&& !bucket(side, (symbol, threshold)).contains(a)
            &&& side.contains_key((symbol, threshold)) ==> side[(symbol, threshold)].len() > 0
        },
        c matches CondView::TimeExact { wake_tick } ==> {
            &&& !bucket(v.exact, wake_tick).contains(a)
            &&& v.exact.contains_key(wake_tick) ==> v.exact[wake_tick].len() > 0
        },
    ensures
        unregister_view(register_view(v, a, c), a, c) == v,
{
    let l = v.conditions[a.0];
    l.lemma_filter_push(c, not_cond(c));
    assert(l.filter(not_cond(c)) =~= l) by {
        assert forall|i: int| 0 <= i < l.len() implies (not_cond(c))(#[trigger] l[i]) by {
            assert(l.contains(l[i]));
        }
        lemma_filter_keeps_all(l, not_cond(c));
    }
    let r = register_view(v, a, c);
    assert(r.conditions[a.0] == l.push(c));
    assert(not_cond(c) =~= (|x: CondView| x != c));
    assert(r.conditions[a.0].filter(|x: CondView| x != c) =~= l.push(c).filter(not_cond(c)));
    assert(unregister_view(r, a, c).conditions =~= v.conditions);
    match c {
        CondView::PriceCross { symbol, threshold, direction } => {
            if direction == CrossDirection::Above {
                lemma_push_then_drop(v.above, (symbol, threshold), a);
            } else {
                lemma_push_then_drop(v.below, (symbol, threshold), a);
            }
        },
        CondView::TimeExact { wake_tick } => {
            lemma_push_then_drop(v.exact, wake_tick, a);
        },
        _ => {},
    }
    assert(unregister_view(r, a, c) =~= v);
}

/// View of a map of buckets.
pub open spec fn buckets_view<K: View>(m: AssocMap<K, AgentList>) -> Map<K::V, Seq<AgentId>>
    where K: MapKey
{
    Map::new(|k: K::V| m.map().contains_key(k), |k: K::V| m.map()[k]@)
}

/// Append an agent to the bucket at `k`.
fn bucket_add<K: MapKey>(m: &mut AssocMap<K, AgentList>, k: K, a: AgentId)
    requires
        old(m).wf(),
    ensures
        final(m).wf(),
        buckets_view(*final(m)) == bucket_push(buckets_view(*old(m)), k@, a),
{
    let ghost kv = k@;
    match m.find(&k) {
        Some(i) => {
            let ghost before = *m;
            let v = m.value_at_mut(i);
            v.push(a);
            proof {
                AssocMap::lemma_update_at(before, *m, i as int, m.pairs()[i as int]);
                assert(buckets_view(*m) =~= bucket_push(buckets_view(before), kv, a));
            }
        },
        None => {
            let mut v: AgentList = AgentList::new();
            v.push(a);
            m.insert(k, v);
            proof {
                assert(buckets_view(*m) =~= bucket_push(buckets_view(*old(m)), kv, a));
            }
        },
    }
}

/// The agents of `v` other than `a`, in order.
fn without_agent(v: &AgentList, a: AgentId) -> (r: AgentList)
    ensures
        r@ == v@.filter(not_agent(a)),
{
    let mut out: AgentList = AgentList::new();
    let mut i: usize = 0;
    while i < v.len()
        invariant
            i <= v@.len(),
            out@ == v@.take(i as int).filter(not_agent(a)),
        decreases v@.len() - i,
    {
        proof {
            assert(v@.take(i as int + 1) =~= v@.take(i as int).push(v@[i as int]));
            v@.take(i as int).lemma_filter_push(v@[i as int], not_agent(a));
        }
        if v.get(i).0 != a.0 {
            out.push(v.get(i));
        }
        i += 1;
    }
    assert(v@.take(v@.len() as int) =~= v@);
    out
}

/// Remove every occurrence of `a` from the bucket at `k`, dropping an emptied bucket.
fn bucket_remove<K: MapKey>(m: &mut AssocMap<K, AgentList>, k: &K, a: AgentId)
    requires
        old(m).wf(),
    ensures
        final(m).wf(),
        buckets_view(*final(m)) == bucket_drop(buckets_view(*old(m)), k@, a),
{
    let ghost kv = k@;
    match m.find(k) {
        Some(i) => {
            let kept = without_agent(m.value_at(i), a);
            if kept.len() == 0 {
                m.remove(k);
                proof {
                    assert(buckets_view(*m) =~= bucket_drop(buckets_view(*old(m)), kv, a));
                }
            } else {
                let ghost before = *m;
                let v = m.value_at_mut(i);
                *v = kept;
                proof {
                    AssocMap::lemma_update_at(before, *m, i as int, m.pairs()[i as int]);
                    assert(buckets_view(*m) =~= bucket_drop(buckets_view(before), kv, a));
                }
            }
        },
        None => {
            proof {
                assert(buckets_view(*m) =~= bucket_drop(buckets_view(*old(m)), kv, a));
            }
        },
    }
}

/// Every condition other than `c`.
pub open spec fn not_cond(c: CondView) -> spec_fn(CondView) -> bool {
    |x: CondView| x != c
}

/// Every interval trigger other than those of `a` firing every `interval` ticks.
pub open spec fn not_trigger_of(a: AgentId, interval: u64) -> spec_fn((AgentId, u64, u64)) -> bool {
    |e: (AgentId, u64, u64)| !(e.0 == a && e.2 == interval)
}

/// The conditions of `v` other than `c`, in order.
fn without_condition(v: &ConditionList, c: &WakeCondition) -> (r: ConditionList)
    ensures
        r@ == v@.filter(not_cond(c@)),
{
    let mut out: ConditionList = ConditionList::new();
    let mut i: usize = 0;
    while i < v.len()
        invariant
            i <= v@.len(),
            out@ == v@.take(i as int).filter(not_cond(c@)),
        decreases v@.len() - i,
    {
        proof {
            assert(v@.take(i as int + 1) =~= v@.take(i as int).push(v@[i as int]));
            v@.take(i as int).lemma_filter_push(v@[i as int], not_cond(c@));
        }
        if !v.get(i).same_as(c) {
            let d = v.get(i).duplicate();
            out.push(d);
        }
        i += 1;
    }
    assert(v@.take(v@.len() as int) =~= v@);
    out
}

/// View of the reverse index.
pub open spec fn conds_view(m: AssocMap<AgentId, ConditionList>) -> Map<u64, Seq<CondView>> {
    Map::new(|k: u64| m.map().contains_key(k), |k: u64| m.map()[k]@)
}

/// Append a condition to an agent's list.
fn conditions_push(m: &mut AssocMap<AgentId, ConditionList>, a: AgentId, c: WakeCondition)
    requires
        old(m).wf(),
    ensures
        final(m).wf(),
        conds_view(*final(m)) == conds_view(*old(m)).insert(
            a.0,
            (if conds_view(*old(m)).contains_key(a.0) { conds_view(*old(m))[a.0] } else { Seq::empty() }).push(c@),
        ),
{
    let ghost cv = c@;
    match m.find(&a) {
        Some(i) => {
            let ghost before = *m;
            let v = m.value_at_mut(i);
            v.push(c);
            proof {
                AssocMap::lemma_update_at(before, *m, i as int, m.pairs()[i as int]);
                assert(m.map()[a.0]@ =~= before.map()[a.0]@.push(cv));
                assert(conds_view(*m) =~= conds_view(before).insert(a.0, conds_view(before)[a.0].push(cv)));
            }
        },
        None => {
            let mut v: ConditionList = ConditionList::new();
            v.push(c);
            m.insert(a, v);
            proof {
                assert(m.map()[a.0]@ =~= Seq::<CondView>::empty().push(cv));
                assert(conds_view(*m) =~= conds_view(*old(m)).insert(a.0, Seq::<CondView>::empty().push(cv)));
            }
        },
    }
}

/// Drop every copy of a condition from an agent's list (the list stays, possibly empty).
fn conditions_filter(m: &mut AssocMap<AgentId, ConditionList>, a: AgentId, c: &WakeCondition)
    requires
        old(m).wf(),
    ensures
        final(m).wf(),
        conds_view(*final(m)) == (if conds_view(*old(m)).contains_key(a.0) {
            conds_view(*old(m)).insert(a.0, conds_view(*old(m))[a.0].filter(not_cond(c@)))
        } else {
            conds_view(*old(m))
        }),
{
    match m.find(&a) {
        Some(i) => {
            let kept = without_condition(m.value_at(i), c);
            let ghost before = *m;
            let v = m.value_at_mut(i);
            *v = kept;
            proof {
                AssocMap::lemma_update_at(before, *m, i as int, m.pairs()[i as int]);
                assert(conds_view(*m) =~= conds_view(before).insert(a.0, conds_view(before)[a.0].filter(not_cond(c@))));
            }
        },
        None => {
            proof {
                assert(conds_view(*m) =~= conds_view(*old(m)));
            }
        },
    }
}

/// Whether the price `cur` of `sym` fires a threshold in a direction.
pub open spec fn fires(dir: CrossDirection, threshold: i64, cur: i64) -> bool {
    if dir == CrossDirection::Below {
        cur <= threshold
    } else {
        threshold <= cur
    }
}

/// Whether threshold `x` is reported before threshold `y`: "below"
/// thresholds in ascending order (nearest the falling price first), "above"
/// thresholds in descending order.
pub open spec fn reported_before(dir: CrossDirection, x: i64, y: i64) -> bool {
    if dir == CrossDirection::Below {
        x < y
    } else {
        y < x
    }
}

/// The thresholds of `sym` in the buckets `m` that price `cur` fires.
pub open spec fn firing_thresholds(m: Map<(Seq<char>, i64), Seq<AgentId>>, sym: Seq<char>, cur: i64, dir: CrossDirection) -> Set<i64> {
    Set::new(|t: i64| m.contains_key((sym, t)) && fires(dir, t, cur))
}

/// Thresholds listed in report order, each once.
pub open spec fn in_report_order(ts: Seq<i64>, dir: CrossDirection) -> bool {
    forall|i: int, j: int| 0 <= i < j < ts.len() ==> reported_before(dir, #[trigger] ts[i], #[trigger] ts[j])
}

/// The firing thresholds in report order.
pub open spec fn report_order(m: Map<(Seq<char>, i64), Seq<AgentId>>, sym: Seq<char>, cur: i64, dir: CrossDirection) -> Seq<i64> {
    choose|ts: Seq<i64>| in_report_order(ts, dir) && ts.to_set() == firing_thresholds(m, sym, cur, dir)
}

/// The hits of the buckets of `sym` at thresholds `ts`, bucket after
/// bucket, each agent of a bucket in bucket order.
pub open spec fn blocks(m: Map<(Seq<char>, i64), Seq<AgentId>>, sym: Seq<char>, dir: CrossDirection, ts: Seq<i64>) -> Seq<(AgentId, CondView)>
    decreases ts.len(),
{
    if ts.len() == 0 {
        Seq::empty()
    } else {
        blocks(m, sym, dir, ts.drop_last()) + bucket(m, (sym, ts.last())).map_values(
            |a: AgentId| (a, CondView::PriceCross { symbol: sym, threshold: ts.last(), direction: dir }),
        )
    }
}

/// The hits of price `cur` of `sym` on the buckets `m` of one direction,
/// threshold by threshold in report order.
pub open spec fn ordered_hits(m: Map<(Seq<char>, i64), Seq<AgentId>>, sym: Seq<char>, cur: i64, dir: CrossDirection) -> Seq<(AgentId, CondView)> {
    blocks(m, sym, dir, report_order(m, sym, cur, dir))
}

/// Two threshold lists in report order with the same elements are equal.
pub proof fn lemma_report_order_unique(a: Seq<i64>, b: Seq<i64>, dir: CrossDirection)
    requires
        in_report_order(a, dir),
        in_report_order(b, dir),
        a.to_set() == b.to_set(),
    ensures
        a == b,
    decreases a.len(),
{
    if a.len() == 0 {
        if b.len() > 0 {
            assert(b.to_set().contains(b[0]));
            assert(a.to_set().contains(b[0]));
            assert(a.contains(b[0]));
            assert(false);
        }
        assert(a =~= b);
    } else {
        assert(a.to_set().contains(a[0]));
        assert(b.contains(a[0]));
        let k = choose|k: int| 0 <= k < b.len() && b[k] == a[0];
        assert(b.to_set().contains(b[0]));
        assert(a.contains(b[0]));
        let m = choose|m: int| 0 <= m < a.len() && a[m] == b[0];
        if k > 0 {
            assert(reported_before(dir, b[0], b[k]));
            if m > 0 {
                assert(reported_before(dir, a[0], a[m]));
            }
            assert(false);
        }
        let a1 = a.drop_first();
        let b1 = b.drop_first();
        assert forall|x: i64| a1.contains(x) <==> b1.contains(x) by {
            if a1.contains(x) {
                let i = choose|i: int| 0 <= i < a1.len() && a1[i] == x;
                assert(a[i + 1] == x);
                assert(reported_before(dir, a[0], a[i + 1]));
                assert(a.to_set().contains(x));
                assert(b.contains(x));
                let j = choose|j: int| 0 <= j < b.len() && b[j] == x;
                assert(j != 0);
                assert(b1[j - 1] == x);
            }
            if b1.contains(x) {
                let i = choose|i: int| 0 <= i < b1.len() && b1[i] == x;
                assert(b[i + 1] == x);
                assert(reported_before(dir, b[0], b[i + 1]));
                assert(b.to_set().contains(x));
                assert(a.contains(x));
                let j = choose|j: int| 0 <= j < a.len() && a[j] == x;
                assert(j != 0);
                assert(a1[j - 1] == x);
            }
        }
        assert(a1.to_set() =~= b1.to_set());
        assert forall|i: int, j: int| 0 <= i < j < a1.len() implies reported_before(dir, #[trigger] a1[i], #[trigger] a1[j]) by {
            assert(a1[i] == a[i + 1] && a1[j] == a[j + 1]);
        }
        assert forall|i: int, j: int| 0 <= i < j < b1.len() implies reported_before(dir, #[trigger] b1[i], #[trigger] b1[j]) by {
            assert(b1[i] == b[i + 1] && b1[j] == b[j + 1]);
        }
        lemma_report_order_unique(a1, b1, dir);
        assert(b[0] == a[0]);
        assert(a =~= seq![a[0]] + a1);
        assert(b =~= seq![b[0]] + b1);
    }
}

/// `x` placed into a list in report order at its place, unless already there.
pub open spec fn insert_in_order(ts: Seq<i64>, x: i64, dir: CrossDirection) -> Seq<i64>
    decreases ts.len(),
{
    if ts.len() == 0 {
        seq![x]
    } else if ts[0] == x {
        ts
    } else if reported_before(dir, x, ts[0]) {
        seq![x] + ts
    } else {
        seq![ts[0]] + insert_in_order(ts.drop_first(), x, dir)
    }
}

/// Inserting keeps the report order and adds `x` to the elements.
proof fn lemma_insert_in_order(ts: Seq<i64>, x: i64, dir: CrossDirection)
    requires
        in_report_order(ts, dir),
    ensures
        in_report_order(insert_in_order(ts, x, dir), dir),
        insert_in_order(ts, x, dir).to_set() == ts.to_set().insert(x),
    decreases ts.len(),
{
    let r = insert_in_order(ts, x, dir);
    if ts.len() == 0 {
        assert(r.to_set() =~= ts.to_set().insert(x)) by {
            assert(r[0] == x);
        }
    } else if ts[0] == x {
        assert(ts.to_set().contains(x));
        assert(r.to_set() =~= ts.to_set().insert(x));
    } else if reported_before(dir, x, ts[0]) {
        assert forall|i: int, j: int| 0 <= i < j < r.len() implies reported_before(dir, #[trigger] r[i], #[trigger] r[j]) by {
            if i > 0 {
                assert(r[i] == ts[i - 1] && r[j] == ts[j - 1]);
            } else {
                assert(r[j] == ts[j - 1]);
                if j - 1 > 0 {
                    assert(reported_before(dir, ts[0], ts[j - 1]));
                }
            }
        }
        assert forall|y: i64| r.contains(y) <==> ts.contains(y) || y == x by {
            if r.contains(y) {
                let i = choose|i: int| 0 <= i < r.len() && r[i] == y;
                if i > 0 {
                    assert(ts[i - 1] == y);
                }
            }
            if ts.contains(y) {
                let i = choose|i: int| 0 <= i < ts.len() && ts[i] == y;
                assert(r[i + 1] == y);
            }
            if y == x {
                assert(r[0] == y);
            }
        }
        assert(r.to_set() =~= ts.to_set().insert(x));
    } else {
        let t1 = ts.drop_first();
        assert forall|i: int, j: int| 0 <= i < j < t1.len() implies reported_before(dir, #[trigger] t1[i], #[trigger] t1[j]) by {
            assert(t1[i] == ts[i + 1] && t1[j] == ts[j + 1]);
        }
        lemma_insert_in_order(t1, x, dir);
        let r1 = insert_in_order(t1, x, dir);
        assert(r == seq![ts[0]] + r1);
        assert forall|y: i64| r1.contains(y) implies reported_before(dir, ts[0], y) by {
            {
                assert(r1.to_set().contains(y));
                if y != x {
                    assert(t1.contains(y));
                    let i = choose|i: int| 0 <= i < t1.len() && t1[i] == y;
                    assert(ts[i + 1] == y);
                }
            }
        }
        assert forall|i: int, j: int| 0 <= i < j < r.len() implies reported_before(dir, #[trigger] r[i], #[trigger] r[j]) by {
            if i > 0 {
                assert(r[i] == r1[i - 1] && r[j] == r1[j - 1]);
            } else {
                assert(r[j] == r1[j - 1]);
                assert(r1.contains(r1[j - 1]));
            }
        }
        assert forall|y: i64| r.contains(y) <==> ts.contains(y) || y == x by {
            if r.contains(y) {
                let i = choose|i: int| 0 <= i < r.len() && r[i] == y;
                if i > 0 {
                    assert(r1[i - 1] == y);
                    assert(r1.to_set().contains(y));
                    if y != x {
                        assert(t1.contains(y));
                        let k = choose|k: int| 0 <= k < t1.len() && t1[k] == y;
                        assert(ts[k + 1] == y);
                    }
                } else {
                    assert(ts[0] == y);
                }
            }
            if ts.contains(y) {
                let i = choose|i: int| 0 <= i < ts.len() && ts[i] == y;
                if i == 0 {
                    assert(r[0] == y);
                } else {
                    assert(t1[i - 1] == y);
                    assert(r1.to_set().contains(y));
                    let k = choose|k: int| 0 <= k < r1.len() && r1[k] == y;
                    assert(r[k + 1] == y);
                }
            }
            if y == x {
                assert(r1.to_set().contains(y));
                let k = choose|k: int| 0 <= k < r1.len() && r1[k] == y;
                assert(r[k + 1] == y);
            }
        }
        assert(r.to_set() =~= ts.to_set().insert(x));
    }
}

/// The elements of any list can be listed in report order.
proof fn lemma_report_order_exists(s: Seq<i64>, dir: CrossDirection)
    ensures
        exists|ts: Seq<i64>| in_report_order(ts, dir) && ts.to_set() == s.to_set(),
    decreases s.len(),
{
    if s.len() == 0 {
        let e = Seq::<i64>::empty();
        assert(e.to_set() =~= s.to_set());
        assert(in_report_order(e, dir));
    } else {
        lemma_report_order_exists(s.drop_last(), dir);
        let ts = choose|ts: Seq<i64>| in_report_order(ts, dir) && ts.to_set() == s.drop_last().to_set();
        lemma_insert_in_order(ts, s.last(), dir);
        let r = insert_in_order(ts, s.last(), dir);
        assert(s =~= s.drop_last().push(s.last()));
        assert(r.to_set() =~= s.to_set()) by {
            assert forall|y: i64| s.contains(y) <==> s.drop_last().contains(y) || y == s.last() by {
                if s.contains(y) {
                    let i = choose|i: int| 0 <= i < s.len() && s[i] == y;
                    if i < s.len() - 1 {
                        assert(s.drop_last()[i] == y);
                    }
                }
                if s.drop_last().contains(y) {
                    let i = choose|i: int| 0 <= i < s.drop_last().len() && s.drop_last()[i] == y;
                    assert(s[i] == y);
                }
            }
        }
    }
}

/// A hit comes from the blocks of `ts` exactly when its agent is in the
/// bucket of one of the thresholds, with that threshold's condition.
proof fn lemma_blocks_contain(m: Map<(Seq<char>, i64), Seq<AgentId>>, sym: Seq<char>, dir: CrossDirection, ts: Seq<i64>, a: AgentId, c: CondView)
    ensures
        blocks(m, sym, dir, ts).contains((a, c)) <==> exists|k: int| #![trigger ts[k]] 0 <= k < ts.len()
            && bucket(m, (sym, ts[k])).contains(a)
            && c == (CondView::PriceCross { symbol: sym, threshold: ts[k], direction: dir }),
    decreases ts.len(),
{
    if ts.len() > 0 {
        let init = ts.drop_last();
        lemma_blocks_contain(m, sym, dir, init, a, c);
        let prev = blocks(m, sym, dir, init);
        let tail = bucket(m, (sym, ts.last())).map_values(
            |x: AgentId| (x, CondView::PriceCross { symbol: sym, threshold: ts.last(), direction: dir }),
        );
        assert(blocks(m, sym, dir, ts) == prev + tail);
        if (prev + tail).contains((a, c)) {
            let i = choose|i: int| 0 <= i < (prev + tail).len() && (prev + tail)[i] == (a, c);
            if i < prev.len() {
                assert(prev[i] == (a, c));
                let k = choose|k: int| #![trigger init[k]] 0 <= k < init.len() && bucket(m, (sym, init[k])).contains(a)
                    && c == (CondView::PriceCross { symbol: sym, threshold: init[k], direction: dir });
                assert(ts[k] == init[k]);
            } else {
                assert(tail[i - prev.len()] == (a, c));
                assert(bucket(m, (sym, ts.last()))[i - prev.len()] == a);
                assert(ts[ts.len() - 1] == ts.last());
            }
        }
        if exists|k: int| #![trigger ts[k]] 0 <= k < ts.len() && bucket(m, (sym, ts[k])).contains(a)
            && c == (CondView::PriceCross { symbol: sym, threshold: ts[k], direction: dir }) {
            let k = choose|k: int| #![trigger ts[k]] 0 <= k < ts.len() && bucket(m, (sym, ts[k])).contains(a)
                && c == (CondView::PriceCross { symbol: sym, threshold: ts[k], direction: dir });
            if k < ts.len() - 1 {
                assert(init[k] == ts[k]);
                assert(prev.contains((a, c)));
                let i = choose|i: int| 0 <= i < prev.len() && prev[i] == (a, c);
                assert((prev + tail)[i] == (a, c));
            } else {
                let i = choose|i: int| 0 <= i < bucket(m, (sym, ts.last())).len() && bucket(m, (sym, ts.last()))[i] == a;
                assert(tail[i] == (a, c));
                assert((prev + tail)[prev.len() + i] == (a, c));
            }
        }
    }
}

/// Hits of `current` prices, price by price: for each, the "below"
/// buckets it fires, nearest threshold first (ascending), then the "above"
/// buckets it fires, nearest first (descending).
pub open spec fn price_hits(v: IndexView, current: Seq<(Seq<char>, i64)>) -> Seq<(AgentId, CondView)>
    decreases current.len(),
{
    if current.len() == 0 {
        Seq::empty()
    } else {
        let (sym, cur) = current.last();
        price_hits(v, current.drop_last()) + ordered_hits(v.below, sym, cur, CrossDirection::Below)
            + ordered_hits(v.above, sym, cur, CrossDirection::Above)
    }
}

/// Over buckets with finitely many keys, the report order lists exactly
/// the firing thresholds.
pub proof fn lemma_report_order_lists_firing(m: Map<(Seq<char>, i64), Seq<AgentId>>, sym: Seq<char>, cur: i64, dir: CrossDirection)
    requires
        m.dom().finite(),
    ensures
        in_report_order(report_order(m, sym, cur, dir), dir),
        report_order(m, sym, cur, dir).to_set() == firing_thresholds(m, sym, cur, dir),
{
    let f = firing_thresholds(m, sym, cur, dir);
    let big = m.dom().map(|k: (Seq<char>, i64)| k.1);
    m.dom().lemma_map_finite(|k: (Seq<char>, i64)| k.1);
    assert(f =~= big.intersect(f)) by {
        assert forall|t: i64| f.contains(t) implies big.contains(t) by {
            assert(m.dom().contains((sym, t)));
            assert(((sym, t)).1 == t);
        }
    }
    vstd::set::axiom_set_intersect_finite(big, f);
    f.lemma_to_seq_to_set_id();
    lemma_report_order_exists(f.to_seq(), dir);
    let w = choose|ts: Seq<i64>| in_report_order(ts, dir) && ts.to_set() == f.to_seq().to_set();
    assert(in_report_order(w, dir) && w.to_set() == f);
}

/// Views of (symbol, price) pairs.
pub open spec fn price_views(s: Seq<(Symbol, Price)>) -> Seq<(Seq<char>, i64)> {
    s.map_values(|e: (Symbol, Price)| (e.0@, e.1.0))
}

/// Views of (agent, condition) pairs.
pub open spec fn hit_views(s: Seq<(AgentId, WakeCondition)>) -> Seq<(AgentId, CondView)> {
    s.map_values(|e: (AgentId, WakeCondition)| (e.0, e.1@))
}

/// Interval triggers due at `tick`, with the tick of their next wake.
pub open spec fn interval_hits(s: Seq<(AgentId, u64, u64)>, tick: u64) -> Seq<(AgentId, CondView, int)>
    decreases s.len(),
{
    if s.len() == 0 {
        Seq::empty()
    } else {
        let e = s.last();
        interval_hits(s.drop_last(), tick) + (if e.1 == tick {
            seq![(e.0, CondView::TimeInterval { next_wake: e.1, interval: e.2 }, e.1 + e.2)]
        } else {
            Seq::empty()
        })
    }
}

/// Agents woken by news about each symbol in turn.
pub open spec fn news_hits(news: Map<Seq<char>, Seq<AgentId>>, syms: Seq<Seq<char>>) -> Seq<(AgentId, CondView)>
    decreases syms.len(),
{
    if syms.len() == 0 {
        Seq::empty()
    } else {
        let s = syms.last();
        news_hits(news, syms.drop_last()) + bucket(news, s).map_values(|a: AgentId| (a, CondView::NewsEvent { symbols: seq![s] }))
    }
}

/// Group hits by agent, keeping each agent's hits in order.
pub open spec fn group_hits(m: Map<u64, Seq<CondView>>, hits: Seq<(AgentId, CondView)>) -> Map<u64, Seq<CondView>>
    decreases hits.len(),
{
    if hits.len() == 0 {
        m
    } else {
        let g = group_hits(m, hits.drop_last());
        let (a, c) = hits.last();
        g.insert(a.0, (if g.contains_key(a.0) { g[a.0] } else { Seq::empty() }).push(c))
    }
}

/// Apply each update in turn: its removals, then its additions.
pub open spec fn apply_all(v: IndexView, ups: Seq<ConditionUpdate>) -> IndexView
    decreases ups.len(),
{
    if ups.len() == 0 {
        v
    } else {
        let u = ups.last();
        register_each(unregister_each(apply_all(v, ups.drop_last()), u.agent_id, cond_views(u.remove@)), u.agent_id, cond_views(u.add@))
    }
}

/// Interval triggers after advancing those due at `tick`.
pub open spec fn advanced(s: Seq<(AgentId, u64, u64)>, tick: u64) -> Seq<(AgentId, u64, u64)> {
    s.map_values(|e: (AgentId, u64, u64)| if e.1 == tick { (e.0, (e.1 + e.2) as u64, e.2) } else { e })
}

/// The thresholds of firing buckets listed with their positions.
pub open spec fn thresholds_of(s: Seq<(i64, usize)>) -> Seq<i64> {
    s.map_values(|e: (i64, usize)| e.0)
}

/// Whether threshold `x` is reported before `y` (see [`reported_before`]).
fn is_reported_before(dir: CrossDirection, x: i64, y: i64) -> (b: bool)
    ensures
        b == reported_before(dir, x, y),
{
    match dir {
        CrossDirection::Below => x < y,
        CrossDirection::Above => y < x,
    }
}

/// The positions of the buckets of `sym` that `cur` fires, with their
/// thresholds, in report order.
fn firing_in_order(m: &AssocMap<PriceKey, AgentList>, sym: &Symbol, cur: i64, dir: CrossDirection) -> (r: Vec<(i64, usize)>)
    requires
        m.wf(),
    ensures
        forall|k: int| 0 <= k < r@.len() ==> (#[trigger] r@[k]).1 < m.pairs().len()
            && m.pairs()[r@[k].1 as int].0@ == (sym@, r@[k].0),
        thresholds_of(r@) == report_order(buckets_view(*m), sym@, cur, dir),
{
    let ghost pairs = m.pairs();
    let n = m.len();
    let mut sorted: Vec<(i64, usize)> = Vec::new();
    let mut j: usize = 0;
    while j < n
        invariant
            n == pairs.len(),
            pairs == m.pairs(),
            m.wf(),
            j <= n,
            forall|k: int| 0 <= k < sorted@.len() ==> (#[trigger] sorted@[k]).1 < j
                && pairs[sorted@[k].1 as int].0@ == (sym@, sorted@[k].0) && fires(dir, sorted@[k].0, cur),
            in_report_order(thresholds_of(sorted@), dir),
            forall|t: i64| #[trigger] thresholds_of(sorted@).contains(t) <==> exists|i: int| #![trigger pairs[i]] 0 <= i < j
                && pairs[i].0@ == (sym@, t) && fires(dir, t, cur),
        decreases n - j,
    {
        let key = m.key_at(j);
        let t = key.price.0;
        let fire = key.symbol == *sym && (match dir {
            CrossDirection::Below => cur <= t,
            CrossDirection::Above => t <= cur,
        });
        let ghost old_s = sorted@;
        if fire {
            let mut p: usize = 0;
            while p < sorted.len() && !is_reported_before(dir, t, sorted[p].0)
                invariant
                    p <= sorted@.len(),
                    sorted@ == old_s,
                    forall|i: int| 0 <= i < p ==> !reported_before(dir, t, #[trigger] sorted@[i].0),
                decreases sorted@.len() - p,
            {
                p += 1;
            }
            proof {
                // no listed bucket has this threshold: its key would repeat
                assert forall|k: int| 0 <= k < old_s.len() implies (#[trigger] old_s[k]).0 != t by {
                    let i = old_s[k].1 as int;
                    assert(m.keys()[i] == pairs[i].0@);
                    assert(m.keys()[j as int] == pairs[j as int].0@);
                }
            }
            sorted.insert(p, (t, j));
            proof {
                let ns = sorted@;
                assert(ns == old_s.insert(p as int, (t, j)));
                assert forall|k: int| 0 <= k < ns.len() implies (#[trigger] ns[k]).1 < j + 1
                    && pairs[ns[k].1 as int].0@ == (sym@, ns[k].0) && fires(dir, ns[k].0, cur) by {
                    if k < p {
                        assert(ns[k] == old_s[k]);
                    } else if k > p {
                        assert(ns[k] == old_s[k - 1]);
                    }
                }
                assert(thresholds_of(ns) =~= thresholds_of(old_s).insert(p as int, t));
                assert forall|a: int, b: int| 0 <= a < b < thresholds_of(ns).len() implies reported_before(
                    dir,
                    #[trigger] thresholds_of(ns)[a],
                    #[trigger] thresholds_of(ns)[b],
                ) by {
                    let ot = thresholds_of(old_s);
                    if b < p {
                        assert(thresholds_of(ns)[a] == ot[a] && thresholds_of(ns)[b] == ot[b]);
                    } else if a > p {
                        assert(thresholds_of(ns)[a] == ot[a - 1] && thresholds_of(ns)[b] == ot[b - 1]);
                    } else if a == p {
                        assert(thresholds_of(ns)[b] == ot[b - 1]);
                        assert(reported_before(dir, t, ot[p as int]));
                        if b - 1 > p {
                            assert(reported_before(dir, ot[p as int], ot[b - 1]));
                        }
                    } else if b == p {
                        assert(thresholds_of(ns)[a] == ot[a]);
                        assert(!reported_before(dir, t, old_s[a].0));
                        assert(old_s[a].0 != t);
                    } else {
                        assert(thresholds_of(ns)[a] == ot[a] && thresholds_of(ns)[b] == ot[b - 1]);
                    }
                }
                assert forall|x: i64| #[trigger] thresholds_of(ns).contains(x) <==> exists|i: int| #![trigger pairs[i]] 0 <= i < j + 1
                    && pairs[i].0@ == (sym@, x) && fires(dir, x, cur) by {
                    let ot = thresholds_of(old_s);
                    if thresholds_of(ns).contains(x) {
                        let k = choose|k: int| 0 <= k < thresholds_of(ns).len() && thresholds_of(ns)[k] == x;
                        if k == p {
                            assert(pairs[j as int].0@ == (sym@, x));
                        } else {
                            let kk = if k < p { k } else { k - 1 };
                            assert(ot[kk] == x);
                            assert(ot.contains(x));
                        }
                    }
                    if exists|i: int| #![trigger pairs[i]] 0 <= i < j + 1 && pairs[i].0@ == (sym@, x) && fires(dir, x, cur) {
                        let i = choose|i: int| #![trigger pairs[i]] 0 <= i < j + 1 && pairs[i].0@ == (sym@, x) && fires(dir, x, cur);
                        if i == j {
                            assert(thresholds_of(ns)[p as int] == x);
                        } else {
                            assert(ot.contains(x));
                            let k = choose|k: int| 0 <= k < ot.len() && ot[k] == x;
                            if k < p {
                                assert(thresholds_of(ns)[k] == x);
                            } else {
                                assert(thresholds_of(ns)[k + 1] == x);
                            }
                        }
                    }
                }
            }
        } else {
            proof {
                assert forall|x: i64| #[trigger] thresholds_of(sorted@).contains(x) <==> exists|i: int| #![trigger pairs[i]] 0 <= i < j + 1
                    && pairs[i].0@ == (sym@, x) && fires(dir, x, cur) by {
                    if exists|i: int| #![trigger pairs[i]] 0 <= i < j + 1 && pairs[i].0@ == (sym@, x) && fires(dir, x, cur) {
                        let i = choose|i: int| #![trigger pairs[i]] 0 <= i < j + 1 && pairs[i].0@ == (sym@, x) && fires(dir, x, cur);
                        if i == j {
                            assert(pairs[j as int].0@ == (key.symbol@, t));
                        }
                    }
                }
            }
        }
        j += 1;
    }
    proof {
        m.lemma_pairs_in_map();
        let ts = thresholds_of(sorted@);
        let bv = buckets_view(*m);
        assert(ts.to_set() =~= firing_thresholds(bv, sym@, cur, dir)) by {
            assert forall|t: i64| ts.contains(t) <==> bv.contains_key((sym@, t)) && fires(dir, t, cur) by {
                if bv.contains_key((sym@, t)) && fires(dir, t, cur) {
                    assert(m.keys().contains((sym@, t)));
                    let i = choose|i: int| 0 <= i < m.keys().len() && m.keys()[i] == (sym@, t);
                    assert(pairs[i].0@ == (sym@, t));
                }
                if ts.contains(t) {
                    let i = choose|i: int| #![trigger pairs[i]] 0 <= i < n && pairs[i].0@ == (sym@, t) && fires(dir, t, cur);
                    assert(m.map().contains_key(pairs[i].0@));
                }
            }
        }
        assert(in_report_order(ts, dir));
        lemma_report_order_unique(ts, report_order(bv, sym@, cur, dir), dir);
    }
    sorted
}

/// The hits of price `cur` of `sym` on the buckets of one direction, in
/// report order, appended to `out`.
fn collect_ordered_hits(
    m: &AssocMap<PriceKey, AgentList>,
    sym: &Symbol,
    cur: i64,
    dir: CrossDirection,
    out: &mut Vec<(AgentId, WakeCondition)>,
)
    requires
        m.wf(),
    ensures
        hit_views(final(out)@) == hit_views(old(out)@) + ordered_hits(buckets_view(*m), sym@, cur, dir),
{
    let sorted = firing_in_order(m, sym, cur, dir);
    let ghost ts = thresholds_of(sorted@);
    let ghost bv = buckets_view(*m);
    let ghost base = hit_views(out@);
    proof {
        m.lemma_pairs_in_map();
        assert(hit_views(out@) =~= base + blocks(bv, sym@, dir, ts.take(0)));
    }
    let mut k: usize = 0;
    while k < sorted.len()
        invariant
            k <= sorted@.len(),
            m.wf(),
            ts == thresholds_of(sorted@),
            bv == buckets_view(*m),
            forall|i: int| 0 <= i < sorted@.len() ==> (#[trigger] sorted@[i]).1 < m.pairs().len()
                && m.pairs()[sorted@[i].1 as int].0@ == (sym@, sorted@[i].0),
            forall|i: int| 0 <= i < m.pairs().len() ==> #[trigger] m.map().contains_key(m.pairs()[i].0@)
                && m.map()[m.pairs()[i].0@] == m.pairs()[i].1,
            hit_views(out@) == base + blocks(bv, sym@, dir, ts.take(k as int)),
        decreases sorted@.len() - k,
    {
        let t = sorted[k].0;
        let idx = sorted[k].1;
        let agents = m.value_at(idx);
        let ghost cv = CondView::PriceCross { symbol: sym@, threshold: t, direction: dir };
        let ghost mid = hit_views(out@);
        proof {
            assert(bucket(bv, (sym@, t)) == agents@);
        }
        let mut i: usize = 0;
        while i < agents.len()
            invariant
                i <= agents@.len(),
                cv == (CondView::PriceCross { symbol: sym@, threshold: t, direction: dir }),
                hit_views(out@) == mid + agents@.take(i as int).map_values(|x: AgentId| (x, cv)),
            decreases agents@.len() - i,
        {
            let c = WakeCondition::PriceCross { symbol: sym.clone(), threshold: Price(t), direction: dir };
            let ghost before = out@;
            let ghost cc = c;
            out.push((agents.get(i), c));
            proof {
                assert(cc@ == cv);
                assert(out@[before.len() as int] == (agents@[i as int], cc));
                assert(agents@.take(i as int + 1).map_values(|x: AgentId| (x, cv))
                    =~= agents@.take(i as int).map_values(|x: AgentId| (x, cv)).push((agents@[i as int], cv)));
                assert(hit_views(out@) =~= hit_views(before).push((agents@[i as int], cv)));
            }
            i += 1;
        }
        proof {
            assert(agents@.take(agents@.len() as int) =~= agents@);
            assert(ts.take(k as int + 1).drop_last() =~= ts.take(k as int));
            assert(ts.take(k as int + 1).last() == t);
            assert(bucket(bv, (sym@, t)).map_values(|x: AgentId| (x, cv)) =~= agents@.map_values(|x: AgentId| (x, cv)));
        }
        k += 1;
    }
    proof {
        assert(ts.take(sorted@.len() as int) =~= ts);
    }
}

/// Grouping a concatenation groups the second part on top of the first.
proof fn lemma_group_concat(m: Map<u64, Seq<CondView>>, a: Seq<(AgentId, CondView)>, b: Seq<(AgentId, CondView)>)
    ensures
        group_hits(m, a + b) == group_hits(group_hits(m, a), b),
    decreases b.len(),
{
    if b.len() == 0 {
        assert(a + b =~= a);
    } else {
        lemma_group_concat(m, a, b.drop_last());
        assert((a + b).drop_last() =~= a + b.drop_last());
        assert((a + b).last() == b.last());
    }
}

/// Add each hit to its agent's list in `m`.
fn group_push_all(m: &mut AssocMap<AgentId, ConditionList>, hits: Vec<(AgentId, WakeCondition)>)
    requires
        old(m).wf(),
    ensures
        final(m).wf(),
        conds_view(*final(m)) == group_hits(conds_view(*old(m)), hit_views(hits@)),
{
    let ghost start = conds_view(*m);
    let ghost hv = hit_views(hits@);
    let mut i: usize = 0;
    while i < hits.len()
        invariant
            i <= hits@.len(),
            hv == hit_views(hits@),
            m.wf(),
            conds_view(*m) == group_hits(start, hv.take(i as int)),
        decreases hits@.len() - i,
    {
        proof {
            assert(hv.take(i as int + 1).drop_last() =~= hv.take(i as int));
            assert(hv.take(i as int + 1).last() == hv[i as int]);
        }
        conditions_push(m, hits[i].0, hits[i].1.duplicate());
        i += 1;
    }
    proof {
        assert(hv.take(hits@.len() as int) =~= hv);
    }
}

/// Statistics about the wake condition index.
#[derive(Debug, Clone, Copy, Default)]
pub struct IndexStats {
    pub price_above_count: usize,
    pub price_below_count: usize,
    pub price_above_keys: usize,
    pub price_below_keys: usize,
    pub time_exact_count: usize,
    pub time_interval_count: usize,
    pub news_subscription_count: usize,
    pub agent_count: usize,
}

/// Number of agents in a stored bucket.
pub open spec fn bucket_len<K>() -> spec_fn((K, AgentList)) -> int {
    |e: (K, AgentList)| e.1@.len() as int
}

/// A copy of a list of agents.
fn copy_agents(v: &AgentList) -> (r: AgentList)
    ensures
        r@ == v@,
{
    let mut out: AgentList = AgentList::new();
    let mut i: usize = 0;
    while i < v.len()
        invariant
            i <= v@.len(),
            out@ == v@.take(i as int),
        decreases v@.len() - i,
    {
        out.push(v.get(i));
        proof {
            assert(v@.take(i as int + 1) =~= v@.take(i as int).push(v@[i as int]));
        }
        i += 1;
    }
    assert(v@.take(v@.len() as int) =~= v@);
    out
}

/// The agents of a list, as a vector.
fn agents_to_vec(v: &AgentList) -> (r: Vec<AgentId>)
    ensures
        r@ == v@,
{
    let mut out: Vec<AgentId> = Vec::new();
    let n = v.len();
    let mut i: usize = 0;
    while i < n
        invariant
            n == v@.len(),
            i <= n,
            out@ == v@.take(i as int),
        decreases n - i,
    {
        out.push(v.get(i));
        proof {
            assert(v@.take(i as int + 1) =~= v@.take(i as int).push(v@[i as int]));
        }
        i += 1;
    }
    assert(v@.take(n as int) =~= v@);
    out
}

/// Index for efficient wake condition lookups.
#[derive(Debug)]
pub struct WakeConditionIndex {
    /// Price thresholds to rise to, by (symbol, threshold).
    price_above: AssocMap<PriceKey, AgentList>,
    /// Price thresholds to fall to, by (symbol, threshold).
    price_below: AssocMap<PriceKey, AgentList>,
    /// Exact wake ticks.
    time_exact: AssocMap<u64, AgentList>,
    /// Interval triggers: (agent, next wake, interval).
    time_intervals: Vec<(AgentId, Tick, u64)>,
    /// News subscriptions by symbol.
    news_subscriptions: AssocMap<Symbol, AgentList>,
    /// Reverse index: agent -> registered conditions.
    agent_conditions: AssocMap<AgentId, ConditionList>,
}

impl View for WakeConditionIndex {
    type V = IndexView;

    closed spec fn view(&self) -> IndexView {
        IndexView {
            above: buckets_view(self.price_above),
            below: buckets_view(self.price_below),
            exact: buckets_view(self.time_exact),
            intervals: self.time_intervals@,
            news: buckets_view(self.news_subscriptions),
            conditions: conds_view(self.agent_conditions),
        }
    }
}

impl WakeConditionIndex {
    pub closed spec fn wf(self) -> bool {
        &&& self.price_above.wf()
        &&& self.price_below.wf()
        &&& self.time_exact.wf()
        &&& self.news_subscriptions.wf()
        &&& self.agent_conditions.wf()
    }

    /// An empty index.
    pub fn new() -> (idx: WakeConditionIndex)
        ensures
            idx.wf(),
            idx@.above == Map::<(Seq<char>, i64), Seq<AgentId>>::empty(),
            idx@.below == Map::<(Seq<char>, i64), Seq<AgentId>>::empty(),
            idx@.exact == Map::<u64, Seq<AgentId>>::empty(),
            idx@.intervals == Seq::<(AgentId, u64, u64)>::empty(),
            idx@.news == Map::<Seq<char>, Seq<AgentId>>::empty(),
            idx@.conditions == Map::<u64, Seq<CondView>>::empty(),
    {
        let idx = WakeConditionIndex {
            price_above: AssocMap::new(),
            price_below: AssocMap::new(),
            time_exact: AssocMap::new(),
            time_intervals: Vec::new(),
            news_subscriptions: AssocMap::new(),
            agent_conditions: AssocMap::new(),
        };
        proof {
            assert(idx@.above =~= Map::<(Seq<char>, i64), Seq<AgentId>>::empty());
            assert(idx@.below =~= Map::<(Seq<char>, i64), Seq<AgentId>>::empty());
            assert(idx@.exact =~= Map::<u64, Seq<AgentId>>::empty());
            assert(idx@.news =~= Map::<Seq<char>, Seq<AgentId>>::empty());
            assert(idx@.conditions =~= Map::<u64, Seq<CondView>>::empty());
        }
        idx
    }

    /// Register a wake condition for an agent.
    pub fn register(&mut self, agent_id: AgentId, condition: WakeCondition)
        requires
            old(self).wf(),
        ensures
            final(self).wf(),
            final(self)@ == register_view(old(self)@, agent_id, condition@),
    {
        let ghost cv = condition@;
        conditions_push(&mut self.agent_conditions, agent_id, condition.duplicate());
        match &condition {
            WakeCondition::PriceCross { symbol, threshold, direction } => {
                let key = PriceKey { symbol: symbol.clone(), price: OrderedPrice(threshold.0) };
                match direction {
                    CrossDirection::Above => bucket_add(&mut self.price_above, key, agent_id),
                    CrossDirection::Below => bucket_add(&mut self.price_below, key, agent_id),
                }
            },
            WakeCondition::TimeExact { wake_tick } => {
                bucket_add(&mut self.time_exact, *wake_tick, agent_id);
            },
            WakeCondition::TimeInterval { next_wake, interval } => {
                self.time_intervals.push((agent_id, *next_wake, *interval));
            },
            WakeCondition::NewsEvent { symbols } => {
                let ghost start = buckets_view(self.news_subscriptions);
                let ghost pre = *self;
                let ghost sv = symbols@;
                let mut i: usize = 0;
                while i < symbols.len()
                    invariant
                        i <= symbols@.len(),
                        sv == symbols@,
                        self.news_subscriptions.wf(),
                        self.price_above == pre.price_above,
                        self.price_below == pre.price_below,
                        self.time_exact == pre.time_exact,
                        self.time_intervals == pre.time_intervals,
                        self.agent_conditions == pre.agent_conditions,
                        buckets_view(self.news_subscriptions) == subscribe_all(start, sv.take(i as int), agent_id),
                    decreases symbols@.len() - i,
                {
                    proof {
                        assert(sv.take(i as int + 1).drop_last() =~= sv.take(i as int));
                    }
                    bucket_add(&mut self.news_subscriptions, symbols.get(i).clone(), agent_id);
                    i += 1;
                }
                proof {
                    assert(sv.take(symbols@.len() as int) =~= sv);
                }
            },
        }
        proof {
            assert(self@ =~= register_view(old(self)@, agent_id, cv));
        }
    }

    /// Unregister a specific condition for an agent.
    pub fn unregister(&mut self, agent_id: AgentId, condition: &WakeCondition)
        requires
            old(self).wf(),
        ensures
            final(self).wf(),
            final(self)@ == unregister_view(old(self)@, agent_id, condition@),
    {
        conditions_filter(&mut self.agent_conditions, agent_id, condition);
        match condition {
            WakeCondition::PriceCross { symbol, threshold, direction } => {
                let key = PriceKey { symbol: symbol.clone(), price: OrderedPrice(threshold.0) };
                match direction {
                    CrossDirection::Above => bucket_remove(&mut self.price_above, &key, agent_id),
                    CrossDirection::Below => bucket_remove(&mut self.price_below, &key, agent_id),
                }
            },
            WakeCondition::TimeExact { wake_tick } => {
                bucket_remove(&mut self.time_exact, wake_tick, agent_id);
            },
            WakeCondition::TimeInterval { interval, .. } => {
                let mut kept: Vec<(AgentId, Tick, u64)> = Vec::new();
                let mut i: usize = 0;
                while i < self.time_intervals.len()
                    invariant
                        i <= self.time_intervals@.len(),
                        kept@ == self.time_intervals@.take(i as int).filter(not_trigger_of(agent_id, *interval)),
                    decreases self.time_intervals@.len() - i,
                {
                    proof {
                        assert(self.time_intervals@.take(i as int + 1) =~= self.time_intervals@.take(i as int).push(self.time_intervals@[i as int]));
                        self.time_intervals@.take(i as int).lemma_filter_push(self.time_intervals@[i as int], not_trigger_of(agent_id, *interval));
                    }
                    if !(self.time_intervals[i].0.0 == agent_id.0 && self.time_intervals[i].2 == *interval) {
                        kept.push(self.time_intervals[i]);
                    }
                    i += 1;
                }
                proof {
                    assert(self.time_intervals@.take(self.time_intervals@.len() as int) =~= self.time_intervals@);
                }
                self.time_intervals = kept;
            },
            WakeCondition::NewsEvent { symbols } => {
                let ghost start = buckets_view(self.news_subscriptions);
                let ghost pre = *self;
                let ghost sv = symbols@;
                let mut i: usize = 0;
                while i < symbols.len()
                    invariant
                        i <= symbols@.len(),
                        sv == symbols@,
                        self.news_subscriptions.wf(),
                        self.price_above == pre.price_above,
                        self.price_below == pre.price_below,
                        self.time_exact == pre.time_exact,
                        self.time_intervals == pre.time_intervals,
                        self.agent_conditions == pre.agent_conditions,
                        buckets_view(self.news_subscriptions) == unsubscribe_all(start, sv.take(i as int), agent_id),
                    decreases symbols@.len() - i,
                {
                    proof {
                        assert(sv.take(i as int + 1).drop_last() =~= sv.take(i as int));
                    }
                    bucket_remove(&mut self.news_subscriptions, symbols.get(i), agent_id);
                    i += 1;
                }
                proof {
                    assert(sv.take(symbols@.len() as int) =~= sv);
                }
            },
        }
        proof {
            assert(self@ =~= unregister_view(old(self)@, agent_id, condition@));
        }
    }

    /// Unregister all conditions for an agent.
    pub fn unregister_all(&mut self, agent_id: AgentId)
        requires
            old(self).wf(),
        ensures
            final(self).wf(),
            final(self)@ == (if old(self)@.conditions.contains_key(agent_id.0) {
                unregister_each(
                    IndexView { conditions: old(self)@.conditions.remove(agent_id.0), ..old(self)@ },
                    agent_id,
                    old(self)@.conditions[agent_id.0],
                )
            } else {
                old(self)@
            }),
    {
        match self.agent_conditions.remove(&agent_id) {
            Some(conditions) => {
                let ghost v1 = self@;
                proof {
                    assert(v1.conditions =~= old(self)@.conditions.remove(agent_id.0));
                    assert(v1 =~= IndexView { conditions: old(self)@.conditions.remove(agent_id.0), ..old(self)@ });
                }
                let ghost cs = conditions@;
                let mut i: usize = 0;
                while i < conditions.len()
                    invariant
                        i <= conditions@.len(),
                        cs == conditions@,
                        self.wf(),
                        !self@.conditions.contains_key(agent_id.0),
                        self@ == unregister_each(v1, agent_id, cs.take(i as int)),
                    decreases conditions@.len() - i,
                {
                    proof {
                        assert(cs.take(i as int + 1).drop_last() =~= cs.take(i as int));
                    }
                    self.unregister(agent_id, conditions.get(i));
                    i += 1;
                }
                proof {
                    assert(cs.take(conditions@.len() as int) =~= cs);
                }
            },
            None => {
                proof {
                    assert(self@ =~= old(self)@);
                }
            },
        }
    }

    /// An agent is hit by the current prices, with condition `c`, exactly
    /// when some current price of a symbol reaches a threshold it watches:
    /// a "below" threshold at or above the price, an "above" threshold at
    /// or below it.
    pub proof fn lemma_price_hit_iff(self, current: Seq<(Seq<char>, i64)>, a: AgentId, c: CondView)
        requires
            self.wf(),
        ensures
            price_hits(self@, current).contains((a, c)) <==> exists|i: int| #![trigger current[i]] 0 <= i < current.len()
                && (c matches CondView::PriceCross { symbol, threshold, direction } && symbol == current[i].0
                    && fires(direction, threshold, current[i].1)
                    && bucket(if direction == CrossDirection::Below { self@.below } else { self@.above }, (symbol, threshold)).contains(a)),
        decreases current.len(),
    {
        if current.len() > 0 {
            self.lemma_price_hit_iff(current.drop_last(), a, c);
            let (sym, cur) = current.last();
            let v = self@;
            let prev = price_hits(v, current.drop_last());
            let hb = ordered_hits(v.below, sym, cur, CrossDirection::Below);
            let ha = ordered_hits(v.above, sym, cur, CrossDirection::Above);
            assert(price_hits(v, current) == prev + hb + ha);
            self.price_below.lemma_pairs_in_map();
            self.price_above.lemma_pairs_in_map();
            assert(v.below.dom() =~= self.price_below.map().dom());
            assert(v.above.dom() =~= self.price_above.map().dom());
            lemma_report_order_lists_firing(v.below, sym, cur, CrossDirection::Below);
            lemma_report_order_lists_firing(v.above, sym, cur, CrossDirection::Above);
            let tb = report_order(v.below, sym, cur, CrossDirection::Below);
            let ta = report_order(v.above, sym, cur, CrossDirection::Above);
            lemma_blocks_contain(v.below, sym, CrossDirection::Below, tb, a, c);
            lemma_blocks_contain(v.above, sym, CrossDirection::Above, ta, a, c);
            // membership in a concatenation
            assert((prev + hb + ha).contains((a, c)) <==> prev.contains((a, c)) || hb.contains((a, c)) || ha.contains((a, c))) by {
                if (prev + hb + ha).contains((a, c)) {
                    let k = choose|k: int| 0 <= k < (prev + hb + ha).len() && (prev + hb + ha)[k] == (a, c);
                    if k < prev.len() {
                        assert(prev[k] == (a, c));
                    } else if k < prev.len() + hb.len() {
                        assert(hb[k - prev.len()] == (a, c));
                    } else {
                        assert(ha[k - prev.len() - hb.len()] == (a, c));
                    }
                }
                if prev.contains((a, c)) {
                    let k = choose|k: int| 0 <= k < prev.len() && prev[k] == (a, c);
                    assert((prev + hb + ha)[k] == (a, c));
                }
                if hb.contains((a, c)) {
                    let k = choose|k: int| 0 <= k < hb.len() && hb[k] == (a, c);
                    assert((prev + hb + ha)[prev.len() + k] == (a, c));
                }
                if ha.contains((a, c)) {
                    let k = choose|k: int| 0 <= k < ha.len() && ha[k] == (a, c);
                    assert((prev + hb + ha)[prev.len() + hb.len() + k] == (a, c));
                }
            }
            let last = current.len() - 1;
            assert(current[last] == (sym, cur));
            // the buckets at the last price
            if hb.contains((a, c)) {
                let k = choose|k: int| #![trigger tb[k]] 0 <= k < tb.len() && bucket(v.below, (sym, tb[k])).contains(a)
                    && c == (CondView::PriceCross { symbol: sym, threshold: tb[k], direction: CrossDirection::Below });
                assert(tb.to_set().contains(tb[k]));
            }
            if ha.contains((a, c)) {
                let k = choose|k: int| #![trigger ta[k]] 0 <= k < ta.len() && bucket(v.above, (sym, ta[k])).contains(a)
                    && c == (CondView::PriceCross { symbol: sym, threshold: ta[k], direction: CrossDirection::Above });
                assert(ta.to_set().contains(ta[k]));
            }
            match c {
                CondView::PriceCross { symbol, threshold, direction } => {
                if symbol == sym && fires(direction, threshold, cur) {
                    if direction == CrossDirection::Below && bucket(v.below, (symbol, threshold)).contains(a) {
                        assert(firing_thresholds(v.below, sym, cur, CrossDirection::Below).contains(threshold));
                        assert(tb.to_set().contains(threshold));
                        let k = choose|k: int| 0 <= k < tb.len() && tb[k] == threshold;
                        assert(hb.contains((a, c)));
                    }
                    if direction == CrossDirection::Above && bucket(v.above, (symbol, threshold)).contains(a) {
                        assert(firing_thresholds(v.above, sym, cur, CrossDirection::Above).contains(threshold));
                        assert(ta.to_set().contains(threshold));
                        let k = choose|k: int| 0 <= k < ta.len() && ta[k] == threshold;
                        assert(ha.contains((a, c)));
                    }
                }
                },
                _ => {},
            }
            // existential over a prefix extends to the whole sequence
            if exists|i: int| #![trigger current.drop_last()[i]] 0 <= i < current.drop_last().len()
                && (c matches CondView::PriceCross { symbol, threshold, direction } && symbol == current.drop_last()[i].0
                    && fires(direction, threshold, current.drop_last()[i].1)
                    && bucket(if direction == CrossDirection::Below { self@.below } else { self@.above }, (symbol, threshold)).contains(a)) {
                let i = choose|i: int| #![trigger current.drop_last()[i]] 0 <= i < current.drop_last().len()
                    && (c matches CondView::PriceCross { symbol, threshold, direction } && symbol == current.drop_last()[i].0
                        && fires(direction, threshold, current.drop_last()[i].1)
                        && bucket(if direction == CrossDirection::Below { self@.below } else { self@.above }, (symbol, threshold)).contains(a));
                assert(current[i] == current.drop_last()[i]);
            }
            if exists|i: int| #![trigger current[i]] 0 <= i < current.len()
                && (c matches CondView::PriceCross { symbol, threshold, direction } && symbol == current[i].0
                    && fires(direction, threshold, current[i].1)
                    && bucket(if direction == CrossDirection::Below { self@.below } else { self@.above }, (symbol, threshold)).contains(a)) {
                let i = choose|i: int| #![trigger current[i]] 0 <= i < current.len()
                    && (c matches CondView::PriceCross { symbol, threshold, direction } && symbol == current[i].0
                        && fires(direction, threshold, current[i].1)
                        && bucket(if direction == CrossDirection::Below { self@.below } else { self@.above }, (symbol, threshold)).contains(a));
                if i < last {
                    assert(current.drop_last()[i] == current[i]);
                }
            }
        }
    }

    /// Agents triggered by the current prices: a "below" condition fires
    /// when the price is at or under its threshold, an "above" condition
    /// when the price is at or over it (see [`Self::lemma_price_hit_iff`]).
    /// For each price in turn, the fired "below" thresholds come in
    /// ascending order, then the fired "above" thresholds in descending
    /// order, each with its agents in registration order (see [`price_hits`]).
    pub fn triggered_by_price(&self, current_prices: &[(Symbol, Price)]) -> (r: Vec<(AgentId, WakeCondition)>)
        requires
            self.wf(),
            forall|i: int| 0 <= i < current_prices@.len() ==> (#[trigger] current_prices@[i]).1.0 < i64::MAX,
        ensures
            hit_views(r@) == price_hits(self@, price_views(current_prices@)),
    {
        let mut out: Vec<(AgentId, WakeCondition)> = Vec::new();
        let ghost pv = price_views(current_prices@);
        let mut i: usize = 0;
        while i < current_prices.len()
            invariant
                i <= current_prices@.len(),
                pv == price_views(current_prices@),
                self.wf(),
                hit_views(out@) == price_hits(self@, pv.take(i as int)),
            decreases current_prices@.len() - i,
        {
            proof {
                assert(pv.take(i as int + 1).drop_last() =~= pv.take(i as int));
                assert(pv.take(i as int + 1).last() == pv[i as int]);
            }
            let sym = &current_prices[i].0;
            let cur = current_prices[i].1.0;
            collect_ordered_hits(&self.price_below, sym, cur, CrossDirection::Below, &mut out);
            collect_ordered_hits(&self.price_above, sym, cur, CrossDirection::Above, &mut out);
            i += 1;
        }
        proof {
            assert(pv.take(current_prices@.len() as int) =~= pv);
        }
        out
    }

    /// Agents triggered by the exact tick, in registration order.
    pub fn triggered_by_time_exact(&self, tick: Tick) -> (r: Vec<(AgentId, WakeCondition)>)
        requires
            self.wf(),
        ensures
            hit_views(r@) == bucket(self@.exact, tick).map_values(|a: AgentId| (a, CondView::TimeExact { wake_tick: tick })),
    {
        let mut out: Vec<(AgentId, WakeCondition)> = Vec::new();
        let ghost cv = CondView::TimeExact { wake_tick: tick };
        match self.time_exact.get(&tick) {
            Some(agents) => {
                let mut k: usize = 0;
                while k < agents.len()
                    invariant
                        k <= agents@.len(),
                        cv == (CondView::TimeExact { wake_tick: tick }),
                        hit_views(out@) == agents@.take(k as int).map_values(|x: AgentId| (x, cv)),
                    decreases agents@.len() - k,
                {
                    let ghost before = out@;
                    out.push((agents.get(k), WakeCondition::TimeExact { wake_tick: tick }));
                    proof {
                        assert(out@[before.len() as int].1@ == cv);
                        assert(agents@.take(k as int + 1).map_values(|x: AgentId| (x, cv))
                            =~= agents@.take(k as int).map_values(|x: AgentId| (x, cv)).push((agents@[k as int], cv)));
                        assert(hit_views(out@) =~= hit_views(before).push((agents@[k as int], cv)));
                    }
                    k += 1;
                }
                proof {
                    assert(agents@.take(agents@.len() as int) =~= agents@);
                }
            },
            None => {
                proof {
                    assert(hit_views(out@) =~= Seq::<(AgentId, CondView)>::empty());
                }
            },
        }
        out
    }

    /// Interval triggers due at `tick`, with their next wake tick.
    pub fn triggered_by_time_interval(&self, tick: Tick) -> (r: Vec<(AgentId, WakeCondition, Tick)>)
        requires
            forall|i: int| 0 <= i < self@.intervals.len() && (#[trigger] self@.intervals[i]).1 == tick
                ==> self@.intervals[i].1 + self@.intervals[i].2 <= u64::MAX,
        ensures
            r@.map_values(|e: (AgentId, WakeCondition, Tick)| (e.0, e.1@, e.2 as int)) == interval_hits(self@.intervals, tick),
    {
        let mut out: Vec<(AgentId, WakeCondition, Tick)> = Vec::new();
        let ghost iv = self.time_intervals@;
        proof {
            assert(iv == self@.intervals);
            assert forall|j: int| 0 <= j < iv.len() && (#[trigger] iv[j]).1 == tick implies iv[j].1 + iv[j].2 <= u64::MAX by {
                assert(self@.intervals[j] == iv[j]);
            }
        }
        let mut i: usize = 0;
        while i < self.time_intervals.len()
            invariant
                i <= iv.len(),
                iv == self.time_intervals@,
                iv == self@.intervals,
                forall|j: int| 0 <= j < iv.len() && (#[trigger] iv[j]).1 == tick ==> iv[j].1 + iv[j].2 <= u64::MAX,
                out@.map_values(|e: (AgentId, WakeCondition, Tick)| (e.0, e.1@, e.2 as int)) == interval_hits(iv.take(i as int), tick),
            decreases iv.len() - i,
        {
            proof {
                assert(iv.take(i as int + 1).drop_last() =~= iv.take(i as int));
                assert(iv.take(i as int + 1).last() == iv[i as int]);
            }
            let (agent, next_wake, interval) = self.time_intervals[i];
            if next_wake == tick {
                let ghost before = out@;
                out.push((agent, WakeCondition::TimeInterval { next_wake, interval }, next_wake + interval));
                proof {
                    assert(out@.map_values(|e: (AgentId, WakeCondition, Tick)| (e.0, e.1@, e.2 as int))
                        =~= before.map_values(|e: (AgentId, WakeCondition, Tick)| (e.0, e.1@, e.2 as int))
                            + seq![(agent, CondView::TimeInterval { next_wake, interval }, next_wake + interval)]);
                }
            } else {
                proof {
                    assert(interval_hits(iv.take(i as int + 1), tick) =~= interval_hits(iv.take(i as int), tick));
                }
            }
            i += 1;
        }
        proof {
            assert(iv.take(iv.len() as int) =~= iv);
        }
        out
    }

    /// Agents subscribed to news for a symbol, in subscription order.
    pub fn triggered_by_news(&self, symbol: &Symbol) -> (r: Vec<AgentId>)
        requires
            self.wf(),
        ensures
            r@ == bucket(self@.news, symbol@),
    {
        match self.news_subscriptions.get(symbol) {
            Some(agents) => agents_to_vec(agents),
            None => Vec::new(),
        }
    }

    /// Every hit of this tick: price crossings, exact ticks, due intervals,
    /// then news for each symbol in turn.
    pub open spec fn all_hits(self, tick: u64, current: Seq<(Seq<char>, i64)>, news_symbols: Seq<Seq<char>>) -> Seq<(AgentId, CondView)> {
        price_hits(self@, current)
            + bucket(self@.exact, tick).map_values(|a: AgentId| (a, CondView::TimeExact { wake_tick: tick }))
            + interval_hits(self@.intervals, tick).map_values(|e: (AgentId, CondView, int)| (e.0, e.1))
            + news_hits(self@.news, news_symbols)
    }

    /// Collect all triggered agents for this tick, each with its trigger
    /// reasons in the order they were found.
    pub fn collect_triggered(&self, tick: Tick, current_prices: &[(Symbol, Price)], news_symbols: &[Symbol]) -> (r: AssocMap<AgentId, ConditionList>)
        requires
            self.wf(),
            forall|i: int| 0 <= i < current_prices@.len() ==> (#[trigger] current_prices@[i]).1.0 < i64::MAX,
            forall|i: int| 0 <= i < self@.intervals.len() && (#[trigger] self@.intervals[i]).1 == tick
                ==> self@.intervals[i].1 + self@.intervals[i].2 <= u64::MAX,
        ensures
            r.wf(),
            conds_view(r) == group_hits(Map::empty(), self.all_hits(tick, price_views(current_prices@), symbol_views(news_symbols@))),
    {
        let mut result: AssocMap<AgentId, ConditionList> = AssocMap::new();
        proof {
            assert(conds_view(result) =~= Map::<u64, Seq<CondView>>::empty());
        }
        let price = self.triggered_by_price(current_prices);
        let ghost p_hits = hit_views(price@);
        group_push_all(&mut result, price);
        let exact = self.triggered_by_time_exact(tick);
        let ghost e_hits = hit_views(exact@);
        group_push_all(&mut result, exact);
        let intervals = self.triggered_by_time_interval(tick);
        let mut iv: Vec<(AgentId, WakeCondition)> = Vec::new();
        let mut k: usize = 0;
        while k < intervals.len()
            invariant
                k <= intervals@.len(),
                hit_views(iv@) == intervals@.take(k as int).map_values(|e: (AgentId, WakeCondition, Tick)| (e.0, e.1@)),
            decreases intervals@.len() - k,
        {
            let ghost before = iv@;
            iv.push((intervals[k].0, intervals[k].1.duplicate()));
            proof {
                assert(intervals@.take(k as int + 1).map_values(|e: (AgentId, WakeCondition, Tick)| (e.0, e.1@))
                    =~= intervals@.take(k as int).map_values(|e: (AgentId, WakeCondition, Tick)| (e.0, e.1@)).push((intervals@[k as int].0, intervals@[k as int].1@)));
                assert(hit_views(iv@) =~= hit_views(before).push((intervals@[k as int].0, intervals@[k as int].1@)));
            }
            k += 1;
        }
        let ghost i_hits = hit_views(iv@);
        proof {
            assert(intervals@.take(intervals@.len() as int) =~= intervals@);
            let full = interval_hits(self@.intervals, tick);
            assert(intervals@.map_values(|e: (AgentId, WakeCondition, Tick)| (e.0, e.1@, e.2 as int)) == full);
            assert(i_hits =~= full.map_values(|e: (AgentId, CondView, int)| (e.0, e.1))) by {
                assert forall|j: int| 0 <= j < i_hits.len() implies i_hits[j] == full.map_values(|e: (AgentId, CondView, int)| (e.0, e.1))[j] by {
                    assert(full[j] == intervals@.map_values(|e: (AgentId, WakeCondition, Tick)| (e.0, e.1@, e.2 as int))[j]);
                }
            }
        }
        group_push_all(&mut result, iv);
        let mut news: Vec<(AgentId, WakeCondition)> = Vec::new();
        let ghost nsv = symbol_views(news_symbols@);
        let mut j: usize = 0;
        while j < news_symbols.len()
            invariant
                j <= news_symbols@.len(),
                nsv == symbol_views(news_symbols@),
                self.wf(),
                hit_views(news@) == news_hits(self@.news, nsv.take(j as int)),
            decreases news_symbols@.len() - j,
        {
            proof {
                assert(nsv.take(j as int + 1).drop_last() =~= nsv.take(j as int));
                assert(nsv.take(j as int + 1).last() == nsv[j as int]);
            }
            let agents = self.triggered_by_news(&news_symbols[j]);
            let ghost base = hit_views(news@);
            let ghost cv = CondView::NewsEvent { symbols: seq![news_symbols@[j as int]@] };
            let mut k: usize = 0;
            while k < agents.len()
                invariant
                    k <= agents@.len(),
                    j < news_symbols@.len(),
                    cv == (CondView::NewsEvent { symbols: seq![news_symbols@[j as int]@] }),
                    hit_views(news@) == base + agents@.take(k as int).map_values(|a: AgentId| (a, cv)),
                decreases agents@.len() - k,
            {
                let mut syms: Vec<Symbol> = Vec::new();
                syms.push(news_symbols[j].clone());
                let c = WakeCondition::on_news(syms);
                proof {
                    assert(symbol_views(syms@) =~= seq![news_symbols@[j as int]@]);
                    assert(c@ == cv);
                }
                let ghost before = news@;
                let ghost cc = c;
                news.push((agents[k], c));
                proof {
                    assert(news@[before.len() as int] == (agents@[k as int], cc));
                    assert(agents@.take(k as int + 1).map_values(|a: AgentId| (a, cv))
                        =~= agents@.take(k as int).map_values(|a: AgentId| (a, cv)).push((agents@[k as int], cv)));
                    assert(hit_views(news@) =~= hit_views(before).push((agents@[k as int], cv)));
                }
                k += 1;
            }
            proof {
                assert(agents@.take(agents@.len() as int) =~= agents@);
            }
            j += 1;
        }
        proof {
            assert(nsv.take(news_symbols@.len() as int) =~= nsv);
        }
        let ghost n_hits = hit_views(news@);
        group_push_all(&mut result, news);
        proof {
            let m0 = Map::<u64, Seq<CondView>>::empty();
            lemma_group_concat(m0, p_hits, e_hits);
            lemma_group_concat(m0, p_hits + e_hits, i_hits);
            lemma_group_concat(m0, p_hits + e_hits + i_hits, n_hits);
        }
        result
    }

    /// Apply deferred condition updates: for each update in turn, its
    /// removals, then its additions.
    pub fn apply_updates(&mut self, updates: Vec<ConditionUpdate>)
        requires
            old(self).wf(),
        ensures
            final(self).wf(),
            final(self)@ == apply_all(old(self)@, updates@),
    {
        let mut i: usize = 0;
        while i < updates.len()
            invariant
                i <= updates@.len(),
                self.wf(),
                self@ == apply_all(old(self)@, updates@.take(i as int)),
            decreases updates@.len() - i,
        {
            proof {
                assert(updates@.take(i as int + 1).drop_last() =~= updates@.take(i as int));
                assert(updates@.take(i as int + 1).last() == updates@[i as int]);
            }
            let u = &updates[i];
            let ghost base = self@;
            let ghost rv = cond_views(u.remove@);
            let mut j: usize = 0;
            while j < u.remove.len()
                invariant
                    j <= u.remove@.len(),
                    rv == cond_views(u.remove@),
                    self.wf(),
                    self@ == unregister_each(base, u.agent_id, rv.take(j as int)),
                decreases u.remove@.len() - j,
            {
                proof {
                    assert(rv.take(j as int + 1).drop_last() =~= rv.take(j as int));
                }
                self.unregister(u.agent_id, &u.remove[j]);
                j += 1;
            }
            proof {
                assert(rv.take(u.remove@.len() as int) =~= rv);
            }
            let ghost mid = self@;
            let ghost av = cond_views(u.add@);
            let mut j: usize = 0;
            while j < u.add.len()
                invariant
                    j <= u.add@.len(),
                    av == cond_views(u.add@),
                    self.wf(),
                    self@ == register_each(mid, u.agent_id, av.take(j as int)),
                decreases u.add@.len() - j,
            {
                proof {
                    assert(av.take(j as int + 1).drop_last() =~= av.take(j as int));
                }
                self.register(u.agent_id, u.add[j].duplicate());
                j += 1;
            }
            proof {
                assert(av.take(u.add@.len() as int) =~= av);
            }
            i += 1;
        }
        proof {
            assert(updates@.take(updates@.len() as int) =~= updates@);
        }
    }

    /// Move interval triggers due at `tick` to their next wake.
    pub fn advance_intervals(&mut self, tick: Tick)
        requires
            forall|i: int| 0 <= i < old(self)@.intervals.len() && (#[trigger] old(self)@.intervals[i]).1 == tick
                ==> old(self)@.intervals[i].1 + old(self)@.intervals[i].2 <= u64::MAX,
        ensures
            final(self)@ == (IndexView { intervals: advanced(old(self)@.intervals, tick), ..old(self)@ }),
            final(self).wf() == old(self).wf(),
    {
        let ghost iv = self.time_intervals@;
        proof {
            assert(iv == old(self)@.intervals);
        }
        let mut i: usize = 0;
        while i < self.time_intervals.len()
            invariant
                i <= self.time_intervals@.len(),
                self.time_intervals@.len() == iv.len(),
                iv == old(self)@.intervals,
                forall|j: int| 0 <= j < iv.len() && (#[trigger] iv[j]).1 == tick ==> iv[j].1 + iv[j].2 <= u64::MAX,
                forall|j: int| 0 <= j < iv.len() ==> #[trigger] self.time_intervals@[j]
                    == (if j < i { advanced(iv, tick)[j] } else { iv[j] }),
                self.price_above == old(self).price_above,
                self.price_below == old(self).price_below,
                self.time_exact == old(self).time_exact,
                self.news_subscriptions == old(self).news_subscriptions,
                self.agent_conditions == old(self).agent_conditions,
            decreases iv.len() - i,
        {
            let (a, next_wake, interval) = self.time_intervals[i];
            if next_wake == tick {
                proof {
                    assert(iv[i as int] == (a, next_wake, interval));
                }
                self.time_intervals.set(i, (a, next_wake + interval, interval));
            }
            i += 1;
        }
        proof {
            assert(self.time_intervals@ =~= advanced(iv, tick));
            assert(self@ =~= IndexView { intervals: advanced(old(self)@.intervals, tick), ..old(self)@ });
        }
    }

    /// Agents in "above" buckets, counted with repetition.
    pub closed spec fn above_count(self) -> int {
        sum_by(self.price_above.pairs(), bucket_len::<PriceKey>())
    }

    /// Agents in "below" buckets, counted with repetition.
    pub closed spec fn below_count(self) -> int {
        sum_by(self.price_below.pairs(), bucket_len::<PriceKey>())
    }

    /// Agents in exact-tick buckets, counted with repetition.
    pub closed spec fn exact_count(self) -> int {
        sum_by(self.time_exact.pairs(), bucket_len::<u64>())
    }

    /// News subscriptions, counted with repetition.
    pub closed spec fn news_count(self) -> int {
        sum_by(self.news_subscriptions.pairs(), bucket_len::<Symbol>())
    }

    /// Sum of bucket sizes.
    fn count_entries<K: MapKey>(m: &AssocMap<K, AgentList>) -> (n: usize)
        requires
            sum_by(m.pairs(), bucket_len::<K>()) <= usize::MAX,
        ensures
            n == sum_by(m.pairs(), bucket_len::<K>()),
    {
        let ghost pairs = m.pairs();
        let ghost f = bucket_len::<K>();
        let len = m.len();
        let mut total: usize = 0;
        let mut i: usize = 0;
        while i < len
            invariant
                len == pairs.len(),
                pairs == m.pairs(),
                f == bucket_len::<K>(),
                i <= len,
                sum_by(pairs, f) <= usize::MAX,
                forall|j: int| 0 <= j < pairs.len() ==> f(#[trigger] pairs[j]) >= 0,
                total == sum_by(pairs.take(i as int), f),
            decreases len - i,
        {
            proof {
                crate::assoc_map::lemma_sum_prefix(pairs, i as int, f);
                crate::assoc_map::lemma_sum_prefix(pairs, i as int + 1, f);
            }
            total = total + m.value_at(i).len();
            i += 1;
        }
        proof {
            assert(pairs.take(len as int) =~= pairs);
        }
        total
    }

    /// Counts of registered conditions by kind.
    pub fn stats(&self) -> (st: IndexStats)
        requires
            self.wf(),
            self.above_count() <= usize::MAX,
            self.below_count() <= usize::MAX,
            self.exact_count() <= usize::MAX,
            self.news_count() <= usize::MAX,
        ensures
            st.price_above_count == self.above_count(),
            st.price_below_count == self.below_count(),
            st.price_above_keys == self@.above.dom().len(),
            st.price_below_keys == self@.below.dom().len(),
            st.time_exact_count == self.exact_count(),
            st.time_interval_count == self@.intervals.len(),
            st.news_subscription_count == self.news_count(),
            st.agent_count == self@.conditions.dom().len(),
    {
        proof {
            self.price_above.lemma_pairs_in_map();
            self.price_below.lemma_pairs_in_map();
            self.agent_conditions.lemma_pairs_in_map();
            assert(self@.above.dom() =~= self.price_above.map().dom());
            assert(self@.below.dom() =~= self.price_below.map().dom());
            assert(self@.conditions.dom() =~= self.agent_conditions.map().dom());
        }
        IndexStats {
            price_above_count: Self::count_entries(&self.price_above),
            price_below_count: Self::count_entries(&self.price_below),
            price_above_keys: self.price_above.len(),
            price_below_keys: self.price_below.len(),
            time_exact_count: Self::count_entries(&self.time_exact),
            time_interval_count: self.time_intervals.len(),
            news_subscription_count: Self::count_entries(&self.news_subscriptions),
            agent_count: self.agent_conditions.len(),
        }
    }

    /// Drop exact-tick conditions for ticks before `current_tick`.
    pub fn cleanup_expired(&mut self, current_tick: Tick)
        requires
            old(self).wf(),
        ensures
            final(self).wf(),
            final(self)@ == (IndexView {
                exact: Map::new(
                    |k: u64| old(self)@.exact.contains_key(k) && k >= current_tick,
                    |k: u64| old(self)@.exact[k],
                ),
                ..old(self)@
            }),
    {
        let mut kept: AssocMap<u64, AgentList> = AssocMap::new();
        let ghost old_exact = self.time_exact;
        let n = self.time_exact.len();
        let mut i: usize = 0;
        proof {
            old_exact.lemma_pairs_in_map();
        }
        while i < n
            invariant
                n == old_exact.pairs().len(),
                self.time_exact == old_exact,
                old_exact.wf(),
                i <= n,
                kept.wf(),
                forall|k: u64| #[trigger] kept.map().contains_key(k)
                    <==> (old_exact.keys().take(i as int).contains(k) && k >= current_tick),
                forall|k: u64| #[trigger] kept.map().contains_key(k) ==> kept.map()[k]@ == old_exact.map()[k]@,
            decreases n - i,
        {
            let t = *self.time_exact.key_at(i);
            proof {
                assert(old_exact.keys()[i as int] == t);
                assert(old_exact.keys().contains(t));
                assert(old_exact.keys().index_of(t) == i) by {
                    let j = old_exact.keys().index_of(t);
                    assert(old_exact.keys()[j] == t);
                }
                assert(old_exact.map().contains_key(t));
                assert(old_exact.map()[t] == old_exact.pairs()[i as int].1);
                assert(!old_exact.keys().take(i as int).contains(t)) by {
                    if old_exact.keys().take(i as int).contains(t) {
                        let j = choose|j: int| 0 <= j < i && #[trigger] old_exact.keys().take(i as int)[j] == t;
                        assert(old_exact.keys()[j] == t);
                    }
                }
                assert(old_exact.keys().take(i as int + 1) =~= old_exact.keys().take(i as int).push(t));
                assert(old_exact.keys()[i as int] == t);
            }
            let ghost kept_before = kept;
            if t >= current_tick {
                let agents = copy_agents(self.time_exact.value_at(i));
                kept.insert(t, agents);
                proof {
                    assert(kept.map().dom() == kept_before.map().dom().insert(t));
                    assert(kept.map() == kept_before.map().insert(t, agents));
                    assert(agents@ == old_exact.map()[t]@);
                    assert forall|k: u64| #[trigger] kept.map().contains_key(k) implies kept.map()[k]@ == old_exact.map()[k]@ by {
                        if k != t {
                            assert(kept_before.map().contains_key(k));
                        }
                    }
                }
            }
            proof {
                assert forall|k: u64| #[trigger] kept.map().contains_key(k)
                    <==> (old_exact.keys().take(i as int + 1).contains(k) && k >= current_tick) by {
                    assert(kept.map().contains_key(k) == (kept_before.map().contains_key(k) || (k == t && t >= current_tick)));
                    assert(old_exact.keys().take(i as int + 1)[i as int] == t);
                    if old_exact.keys().take(i as int + 1).contains(k) && k != t {
                        let j = choose|j: int| 0 <= j < i + 1 && #[trigger] old_exact.keys().take(i as int + 1)[j] == k;
                        assert(old_exact.keys().take(i as int)[j] == k);
                    }
                    if old_exact.keys().take(i as int).contains(k) {
                        let j = choose|j: int| 0 <= j < i && #[trigger] old_exact.keys().take(i as int)[j] == k;
                        assert(old_exact.keys().take(i as int + 1)[j] == k);
                    }
                }
            }
            i += 1;
        }
        let ghost before = *self;
        self.time_exact = kept;
        proof {
            assert(old_exact.keys().take(n as int) =~= old_exact.keys());
            assert(buckets_view(kept) =~= Map::new(
                |k: u64| old(self)@.exact.contains_key(k) && k >= current_tick,
                |k: u64| old(self)@.exact[k],
            ));
            assert(self@ =~= IndexView {
                exact: Map::new(
                    |k: u64| old(self)@.exact.contains_key(k) && k >= current_tick,
                    |k: u64| old(self)@.exact[k],
                ),
                ..old(self)@
            });
        }
    }
}

} // verus!
