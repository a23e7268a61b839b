//! An insertion-ordered table with unique keys.

use vstd::prelude::*;

verus! {

/// A type whose values can serve as keys: equality is decided and copies are
/// made by what the value stands for.
pub trait Key: DeepView + Sized {
    /// Whether the two keys stand for the same thing.
    fn same_key(&self, other: &Self) -> (r: bool)
        ensures
            r == (self.deep_view() == other.deep_view()),
    ;
}

impl Key for u64 {
    fn same_key(&self, other: &Self) -> (r: bool) {
        *self == *other
    }
}

impl Key for String {
    fn same_key(&self, other: &Self) -> (r: bool) {
        *self == *other
    }
}

/// No key occurs twice.
pub open spec fn unique_keys<A, B>(e: Seq<(A, B)>) -> bool {
    forall|i: int, j: int|
        0 <= i < e.len() && 0 <= j < e.len() && i != j ==> (#[trigger] e[i]).0 != (#[trigger] e[j]).0
}

/// The map that holds each pair of `e`; of two pairs with one key, the later.
pub open spec fn map_of<A, B>(e: Seq<(A, B)>) -> Map<A, B>
    decreases e.len(),
{
    if e.len() == 0 {
        Map::empty()
    } else {
        map_of(e.drop_last()).insert(e.last().0, e.last().1)
    }
}

/// What [`map_of`] holds, pair by pair.
pub proof fn lemma_map_of<A, B>(e: Seq<(A, B)>)
    requires
        unique_keys(e),
    ensures
        map_of(e).dom().finite(),
        map_of(e).len() == e.len(),
        forall|i: int|
            0 <= i < e.len() ==> map_of(e).contains_key((#[trigger] e[i]).0) && map_of(e)[e[i].0]
                == e[i].1,
        forall|k: A| #[trigger]
            map_of(e).contains_key(k) ==> exists|i: int| 0 <= i < e.len() && (#[trigger] e[i]).0 == k,
    decreases e.len(),
{
    if e.len() > 0 {
        let t = e.drop_last();
        assert forall|i: int, j: int|
            0 <= i < t.len() && 0 <= j < t.len() && i != j implies (#[trigger] t[i]).0 != (
        #[trigger] t[j]).0 by {
            assert(t[i] == e[i] && t[j] == e[j]);
        }
        lemma_map_of(t);
        let last = e.last();
        assert(!map_of(t).contains_key(last.0)) by {
            if map_of(t).contains_key(last.0) {
                let i = choose|i: int| 0 <= i < t.len() && (#[trigger] t[i]).0 == last.0;
                assert(e[i] == t[i]);
                assert(e[e.len() - 1].0 == e[i].0);
            }
        }
        assert forall|i: int| 0 <= i < e.len() implies map_of(e).contains_key((#[trigger] e[i]).0)
            && map_of(e)[e[i].0] == e[i].1 by {
            if i < t.len() {
                assert(t[i] == e[i]);
                assert(e[e.len() - 1].0 != e[i].0);
            }
        }
        assert forall|k: A| #[trigger] map_of(e).contains_key(k) implies exists|i: int|
            0 <= i < e.len() && (#[trigger] e[i]).0 == k by {
            if k == last.0 {
                assert(e[e.len() - 1].0 == k);
            } else {
                let i = choose|i: int| 0 <= i < t.len() && (#[trigger] t[i]).0 == k;
                assert(e[i] == t[i]);
            }
        }
    }
}

/// Two sequences of pairs with unique keys that agree as maps.
proof fn lemma_map_of_update<A, B>(e: Seq<(A, B)>, i: int, v: B)
    requires
        unique_keys(e),
        0 <= i < e.len(),
    ensures
        unique_keys(e.update(i, (e[i].0, v))),
        map_of(e.update(i, (e[i].0, v))) == map_of(e).insert(e[i].0, v),
{
    let f = e.update(i, (e[i].0, v));
    assert forall|a: int, b: int|
        0 <= a < f.len() && 0 <= b < f.len() && a != b implies (#[trigger] f[a]).0 != (
    #[trigger] f[b]).0 by {
        assert(f[a].0 == e[a].0 && f[b].0 == e[b].0);
    }
    lemma_map_of(e);
    let m = map_of(e).insert(e[i].0, v);
    assert forall|a: int| 0 <= a < f.len() implies m.contains_key((#[trigger] f[a]).0) && m[f[a].0]
        == f[a].1 by {
        assert(f[a].0 == e[a].0);
    }
    assert forall|k: A| #[trigger] m.contains_key(k) implies exists|a: int|
        0 <= a < f.len() && (#[trigger] f[a]).0 == k by {
        assert(map_of(e).contains_key(k));
        let a = choose|a: int| 0 <= a < e.len() && (#[trigger] e[a]).0 == k;
        assert(f[a].0 == k);
    }
    lemma_same_map(f, m);
}

/// A map that holds exactly the pairs of `e` is [`map_of`] `e`.
pub proof fn lemma_same_map<A, B>(e: Seq<(A, B)>, m: Map<A, B>)
    requires
        unique_keys(e),
        forall|i: int|
            0 <= i < e.len() ==> m.contains_key((#[trigger] e[i]).0) && m[e[i].0] == e[i].1,
        forall|k: A| #[trigger]
            m.contains_key(k) ==> exists|i: int| 0 <= i < e.len() && (#[trigger] e[i]).0 == k,
    ensures
        map_of(e) == m,
{
    lemma_map_of(e);
    assert forall|k: A| map_of(e).contains_key(k) == m.contains_key(k) by {
        if map_of(e).contains_key(k) {
            let i = choose|i: int| 0 <= i < e.len() && (#[trigger] e[i]).0 == k;
            assert(m.contains_key(e[i].0));
        }
    }
    assert forall|k: A| map_of(e).contains_key(k) implies map_of(e)[k] == m[k] by {
        let i = choose|i: int| 0 <= i < e.len() && (#[trigger] e[i]).0 == k;
        assert(m[e[i].0] == e[i].1);
    }
    assert(map_of(e) =~= m);
}

/// Taking a pair out of a sequence takes its key out of the map.
proof fn lemma_map_of_remove<A, B>(e: Seq<(A, B)>, i: int)
    requires
        unique_keys(e),
        0 <= i < e.len(),
    ensures
        unique_keys(e.remove(i)),
        map_of(e.remove(i)) == map_of(e).remove(e[i].0),
{
    let f = e.remove(i);
    assert forall|a: int, b: int|
        0 <= a < f.len() && 0 <= b < f.len() && a != b implies (#[trigger] f[a]).0 != (
    #[trigger] f[b]).0 by {
        let a2 = if a < i { a } else { a + 1 };
        let b2 = if b < i { b } else { b + 1 };
        assert(f[a] == e[a2] && f[b] == e[b2]);
    }
    lemma_map_of(e);
    let m = map_of(e).remove(e[i].0);
    assert forall|a: int| 0 <= a < f.len() implies m.contains_key((#[trigger] f[a]).0) && m[f[a].0]
        == f[a].1 by {
        let a2 = if a < i { a } else { a + 1 };
        assert(f[a] == e[a2]);
        assert(e[a2].0 != e[i].0);
    }
    assert forall|k: A| #[trigger] m.contains_key(k) implies exists|a: int|
        0 <= a < f.len() && (#[trigger] f[a]).0 == k by {
        assert(map_of(e).contains_key(k));
        let a = choose|a: int| 0 <= a < e.len() && (#[trigger] e[a]).0 == k;
        let a2 = if a < i { a } else { a - 1 };
        assert(f[a2] == e[a]);
    }
    lemma_same_map(f, m);
}

/// A table from `K` to `V`, by key unique, in the order of insertion.
pub struct Table<K: Key, V: DeepView> {
    pairs: Vec<(K, V)>,
}

/// What a sequence of pairs stands for.
pub open spec fn deep_pairs<K: DeepView, V: DeepView>(s: Seq<(K, V)>) -> Seq<(K::V, V::V)> {
    s.map_values(|p: (K, V)| (p.0.deep_view(), p.1.deep_view()))
}

impl<K: Key, V: DeepView> View for Table<K, V> {
    type V = Map<K::V, V::V>;

    open spec fn view(&self) -> Map<K::V, V::V> {
        map_of(self.entries())
    }
}

impl<K: Key, V: DeepView> DeepView for Table<K, V> {
    type V = Map<K::V, V::V>;

    open spec fn deep_view(&self) -> Map<K::V, V::V> {
        self@
    }
}

impl<K: Key, V: DeepView> Table<K, V> {
    /// The pairs, in the order of insertion.
    pub closed spec fn entries(&self) -> Seq<(K::V, V::V)> {
        deep_pairs(self.pairs@)
    }

    #[verifier::type_invariant]
    closed spec fn inv(&self) -> bool {
        unique_keys(self.entries())
    }

    /// An empty table.
    pub fn new() -> (r: Self)
        ensures
            r@ == Map::<K::V, V::V>::empty(),
            r.entries() == Seq::<(K::V, V::V)>::empty(),
    {
        let r = Table { pairs: Vec::new() };
        assert(r.entries() =~= Seq::<(K::V, V::V)>::empty());
        r
    }

    /// How many pairs there are.
    pub fn len(&self) -> (r: usize)
        ensures
            r == self.entries().len(),
            r == self@.len(),
            self@.dom().finite(),
            unique_keys(self.entries()),
    {
        proof {
            use_type_invariant(self);
            lemma_map_of(self.entries());
        }
        self.pairs.len()
    }

    /// The pair at index `i`.
    pub fn nth(&self, i: usize) -> (r: (&K, &V))
        requires
            i < self.entries().len(),
        ensures
            r.0.deep_view() == self.entries()[i as int].0,
            r.1.deep_view() == self.entries()[i as int].1,
    {
        let p = &self.pairs[i];
        (&p.0, &p.1)
    }

    /// Where `key` stands.
    fn position(&self, key: &K) -> (r: Option<usize>)
        ensures
            match r {
                Some(i) => i < self.entries().len() && self.entries()[i as int].0
                    == key.deep_view() && self@.contains_key(key.deep_view())
                    && self@[key.deep_view()] == self.entries()[i as int].1,
                None => !self@.contains_key(key.deep_view()),
            },
            unique_keys(self.entries()),
    {
        proof {
            use_type_invariant(self);
            lemma_map_of(self.entries());
        }
        let mut i: usize = 0;
        while i < self.pairs.len()
            invariant
                i <= self.pairs@.len(),
                forall|j: int| 0 <= j < i ==> (#[trigger] self.entries()[j]).0 != key.deep_view(),
            decreases self.pairs@.len() - i,
        {
            if self.pairs[i].0.same_key(key) {
                assert(self.entries()[i as int].0 == key.deep_view());
                proof {
                    use_type_invariant(self);
                    lemma_map_of(self.entries());
                }
                return Some(i);
            }
            i += 1;
        }
        None
    }

    /// The pairs, moved out; the table is left empty.
    fn take_pairs(&mut self) -> (r: Vec<(K, V)>)
        ensures
            r == old(self).pairs,
            final(self).pairs@ == Seq::<(K, V)>::empty(),
    {
        let mut pairs: Vec<(K, V)> = Vec::new();
        assert(deep_pairs(pairs@) =~= Seq::<(K::V, V::V)>::empty());
        std::mem::swap(&mut pairs, &mut self.pairs);
        pairs
    }

    /// Whether `key` has a value.
    pub fn contains_key(&self, key: &K) -> (r: bool)
        ensures
            r == self@.contains_key(key.deep_view()),
    {
        self.position(key).is_some()
    }

    /// The value of `key`.
    pub fn get(&self, key: &K) -> (r: Option<&V>)
        ensures
            match r {
                Some(v) => self@.contains_key(key.deep_view()) && v.deep_view()
                    == self@[key.deep_view()],
                None => !self@.contains_key(key.deep_view()),
            },
    {
        match self.position(key) {
            Some(i) => Some(&self.pairs[i].1),
            None => None,
        }
    }

    /// The value of `key`, taken out.
    pub fn remove(&mut self, key: &K) -> (r: Option<V>)
        ensures
            match r {
                Some(v) => old(self)@.contains_key(key.deep_view()) && v.deep_view() == old(
                    self,
                )@[key.deep_view()],
                None => !old(self)@.contains_key(key.deep_view()),
            },
            final(self)@ == old(self)@.remove(key.deep_view()),
    {
        match self.position(key) {
            Some(i) => {
                let ghost before = self.entries();
                let ghost after = deep_pairs(self.pairs@.remove(i as int));
                proof {
                    lemma_map_of_remove(before, i as int);
                    assert(after =~= before.remove(i as int));
                }
                let mut pairs = self.take_pairs();
                let p = pairs.remove(i);
                self.pairs = pairs;
                Some(p.1)
            },
            None => {
                assert(self@ =~= old(self)@.remove(key.deep_view()));
                None
            },
        }
    }

    /// `value` becomes the value of `key`.
    pub fn insert(&mut self, key: K, value: V)
        ensures
            final(self)@ == old(self)@.insert(key.deep_view(), value.deep_view()),
    {
        match self.position(&key) {
            Some(i) => {
                let ghost before = self.entries();
                let ghost after = deep_pairs(self.pairs@.update(i as int, (key, value)));
                proof {
                    lemma_map_of_update(before, i as int, value.deep_view());
                    assert(after =~= before.update(i as int, (before[i as int].0, value.deep_view())));
                }
                let mut pairs = self.take_pairs();
                pairs.set(i, (key, value));
                self.pairs = pairs;
            },
            None => {
                let ghost before = self.entries();
                let ghost after = deep_pairs(self.pairs@.push((key, value)));
                proof {
                    lemma_map_of(before);
                    assert(after =~= before.push((key.deep_view(), value.deep_view())));
                    assert(after.drop_last() =~= before);
                    assert forall|a: int, b: int|
                        0 <= a < after.len() && 0 <= b < after.len() && a != b implies (
                    #[trigger] after[a]).0 != (#[trigger] after[b]).0 by {
                        if a < before.len() {
                            assert(after[a] == before[a]);
                        }
                        if b < before.len() {
                            assert(after[b] == before[b]);
                        }
                    }
                }
                let mut pairs = self.take_pairs();
                pairs.push((key, value));
                self.pairs = pairs;
            },
        }
    }

    /// Keeps the pairs that `keep` accepts, in their order, and hands out the
    /// others, in theirs.
    pub(crate) fn retain<F: Fn(&K, &V) -> bool>(
        &mut self,
        keep: F,
        Ghost(p): Ghost<spec_fn(K::V, V::V) -> bool>,
    ) -> (r: Vec<(K, V)>)
        requires
            forall|k: &K, v: &V| #[trigger] keep.requires((k, v)),
            forall|k: &K, v: &V, b: bool| #[trigger]
                keep.ensures((k, v), b) ==> b == p(k.deep_view(), v.deep_view()),
        ensures
            final(self).entries() == kept_pairs(old(self).entries(), p),
            final(self)@ == kept(old(self)@, p),
            deep_pairs(r@) == dropped_pairs(old(self).entries(), p),
    {
        let ghost all = self.entries();
        proof {
            use_type_invariant(&*self);
            lemma_kept_pairs(all, p);
        }
        let source = self.take_pairs();
        let ghost whole = source@;
        let mut kept: Vec<(K, V)> = Vec::new();
        let mut dropped: Vec<(K, V)> = Vec::new();
        assert(all.take(0) =~= Seq::empty());
        assert(deep_pairs(kept@) =~= kept_pairs(all.take(0), p));
        assert(deep_pairs(dropped@) =~= dropped_pairs(all.take(0), p));
        for pair in it: source
            invariant
                it.seq() == whole,
                all == deep_pairs(whole),
                forall|k: &K, v: &V| #[trigger] keep.requires((k, v)),
                forall|k: &K, v: &V, b: bool| #[trigger]
                    keep.ensures((k, v), b) ==> b == p(k.deep_view(), v.deep_view()),
                deep_pairs(kept@) == kept_pairs(all.take(it.index()), p),
                deep_pairs(dropped@) == dropped_pairs(all.take(it.index()), p),
        {
            let ghost i = it.index();
            assert(pair == whole[i]);
            assert(all.take(i + 1).drop_last() =~= all.take(i));
            assert(all.take(i + 1).last() == (pair.0.deep_view(), pair.1.deep_view()));
            let ghost k0 = kept@;
            let ghost d0 = dropped@;
            if keep(&pair.0, &pair.1) {
                kept.push(pair);
                assert(deep_pairs(kept@) =~= deep_pairs(k0).push(all[i]));
            } else {
                dropped.push(pair);
                assert(deep_pairs(dropped@) =~= deep_pairs(d0).push(all[i]));
            }
        }
        assert(all.take(all.len() as int) =~= all);
        self.pairs = kept;
        dropped
    }
}

/// The pairs of `e` that `p` accepts.
pub open spec fn kept_pairs<A, B>(e: Seq<(A, B)>, p: spec_fn(A, B) -> bool) -> Seq<(A, B)>
    decreases e.len(),
{
    if e.len() == 0 {
        Seq::empty()
    } else {
        let rest = kept_pairs(e.drop_last(), p);
        if p(e.last().0, e.last().1) {
            rest.push(e.last())
        } else {
            rest
        }
    }
}

/// The pairs of `e` that `p` does not accept.
pub open spec fn dropped_pairs<A, B>(e: Seq<(A, B)>, p: spec_fn(A, B) -> bool) -> Seq<(A, B)> {
    kept_pairs(e, |a: A, b: B| !p(a, b))
}

/// The part of `m` that `p` accepts.
pub open spec fn kept<A, B>(m: Map<A, B>, p: spec_fn(A, B) -> bool) -> Map<A, B> {
    Map::new(|k: A| m.contains_key(k) && p(k, m[k]), |k: A| m[k])
}

/// What the kept pairs are, as a sequence and as a map.
pub proof fn lemma_kept_pairs<A, B>(e: Seq<(A, B)>, p: spec_fn(A, B) -> bool)
    requires
        unique_keys(e),
    ensures
        unique_keys(kept_pairs(e, p)),
        map_of(kept_pairs(e, p)) == kept(map_of(e), p),
        forall|i: int|
            0 <= i < kept_pairs(e, p).len() ==> e.contains(#[trigger] kept_pairs(e, p)[i]) && p(
                kept_pairs(e, p)[i].0,
                kept_pairs(e, p)[i].1,
            ),
    decreases e.len(),
{
    if e.len() == 0 {
        assert(kept(map_of(e), p) =~= Map::empty());
    } else {
        let t = e.drop_last();
        let last = e.last();
        assert forall|i: int, j: int|
            0 <= i < t.len() && 0 <= j < t.len() && i != j implies (#[trigger] t[i]).0 != (
        #[trigger] t[j]).0 by {
            assert(t[i] == e[i] && t[j] == e[j]);
        }
        lemma_kept_pairs(t, p);
        lemma_map_of(t);
        lemma_map_of(e);
        let rest = kept_pairs(t, p);
        let now = kept_pairs(e, p);
        assert forall|i: int| 0 <= i < rest.len() implies e.contains(#[trigger] rest[i])
            && rest[i].0 != last.0 by {
            let j = choose|j: int| 0 <= j < t.len() && t[j] == rest[i];
            assert(e[j] == t[j]);
            assert(e[e.len() - 1].0 != e[j].0);
        }
        assert(!map_of(t).contains_key(last.0)) by {
            if map_of(t).contains_key(last.0) {
                let i = choose|i: int| 0 <= i < t.len() && (#[trigger] t[i]).0 == last.0;
                assert(e[i] == t[i]);
                assert(e[e.len() - 1].0 == e[i].0);
            }
        }
        assert(map_of(e) == map_of(t).insert(last.0, last.1));
        if p(last.0, last.1) {
            assert(now.drop_last() =~= rest);
            assert(e.contains(last)) by {
                assert(e[e.len() - 1] == last);
            }
            assert forall|i: int| 0 <= i < now.len() implies e.contains(#[trigger] now[i]) && p(
                now[i].0,
                now[i].1,
            ) by {
                if i < rest.len() {
                    assert(now[i] == rest[i]);
                }
            }
            assert forall|i: int, j: int|
                0 <= i < now.len() && 0 <= j < now.len() && i != j implies (#[trigger] now[i]).0
                != (#[trigger] now[j]).0 by {
                if i < rest.len() {
                    assert(now[i] == rest[i]);
                }
                if j < rest.len() {
                    assert(now[j] == rest[j]);
                }
            }
            assert(kept(map_of(e), p) =~= kept(map_of(t), p).insert(last.0, last.1));
        } else {
            assert(kept(map_of(e), p) =~= kept(map_of(t), p));
        }
    }
}

/// The sum of `f` over the pairs of a finite map.
pub open spec fn map_sum<A, B>(m: Map<A, B>, f: spec_fn(A, B) -> nat) -> nat
    decreases m.dom().len(),
{
    if m.dom().finite() && m.dom().len() > 0 {
        let k = m.dom().choose();
        f(k, m[k]) + map_sum(m.remove(k), f)
    } else {
        0
    }
}

/// The sum of `f` over a sequence of pairs.
pub open spec fn pair_sum<A, B>(e: Seq<(A, B)>, f: spec_fn(A, B) -> nat) -> nat
    decreases e.len(),
{
    if e.len() == 0 {
        0
    } else {
        pair_sum(e.drop_last(), f) + f(e.last().0, e.last().1)
    }
}

/// Any pair can be summed first.
pub proof fn lemma_map_sum_remove<A, B>(m: Map<A, B>, f: spec_fn(A, B) -> nat, k: A)
    requires
        m.dom().finite(),
        m.contains_key(k),
    ensures
        map_sum(m, f) == f(k, m[k]) + map_sum(m.remove(k), f),
    decreases m.dom().len(),
{
    let c = m.dom().choose();
    assert(m.dom().contains(k));
    assert(m.dom().len() > 0);
    if c != k {
        lemma_map_sum_remove(m.remove(c), f, k);
        lemma_map_sum_remove(m.remove(k), f, c);
        assert(m.remove(c).remove(k) =~= m.remove(k).remove(c));
    }
}

/// Summing the pairs in their order is summing the map.
pub proof fn lemma_pair_sum<A, B>(e: Seq<(A, B)>, f: spec_fn(A, B) -> nat)
    requires
        unique_keys(e),
    ensures
        pair_sum(e, f) == map_sum(map_of(e), f),
    decreases e.len(),
{
    lemma_map_of(e);
    if e.len() > 0 {
        let t = e.drop_last();
        let last = e.last();
        assert forall|i: int, j: int|
            0 <= i < t.len() && 0 <= j < t.len() && i != j implies (#[trigger] t[i]).0 != (
        #[trigger] t[j]).0 by {
            assert(t[i] == e[i] && t[j] == e[j]);
        }
        lemma_pair_sum(t, f);
        lemma_map_of(t);
        assert(!map_of(t).contains_key(last.0)) by {
            if map_of(t).contains_key(last.0) {
                let i = choose|i: int| 0 <= i < t.len() && (#[trigger] t[i]).0 == last.0;
                assert(e[i] == t[i]);
                assert(e[e.len() - 1].0 == e[i].0);
            }
        }
        lemma_map_sum_remove(map_of(e), f, last.0);
        assert(map_of(e).remove(last.0) =~= map_of(t));
    }
}

/// A pair is dropped exactly where the map holds it and `p` does not accept it.
pub proof fn lemma_dropped_pairs<A, B>(e: Seq<(A, B)>, p: spec_fn(A, B) -> bool)
    requires
        unique_keys(e),
    ensures
        forall|k: A, v: B| #[trigger]
            dropped_pairs(e, p).contains((k, v)) <==> map_of(e).contains_key(k) && map_of(e)[k] == v
                && !p(k, v),
{
    let q = |a: A, b: B| !p(a, b);
    lemma_kept_pairs(e, q);
    let d = dropped_pairs(e, p);
    lemma_map_of(d);
    assert forall|k: A, v: B| #[trigger] d.contains((k, v)) <==> map_of(e).contains_key(k)
        && map_of(e)[k] == v && !p(k, v) by {
        if d.contains((k, v)) {
            let i = choose|i: int| 0 <= i < d.len() && d[i] == (k, v);
            assert(map_of(d).contains_key(d[i].0));
        }
        if map_of(e).contains_key(k) && map_of(e)[k] == v && !p(k, v) {
            assert(kept(map_of(e), q).contains_key(k));
            let i = choose|i: int| 0 <= i < d.len() && (#[trigger] d[i]).0 == k;
            assert(map_of(d)[d[i].0] == d[i].1);
            assert(d[i] == (k, v));
        }
    }
}

} // verus!
