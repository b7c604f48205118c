//! A map from attribute name to value, kept as an association list with
//! pairwise-distinct keys. Contracts speak about its view, a `Map` from the
//! name's character sequence to the value's deep view, so that equality of
//! attribute maps is independent of entry order.

use vstd::prelude::*;

use crate::strutil::str_eq;
use crate::wire::{pairs_map, pairs_unique};

verus! {

broadcast use {vstd::map::group_map_axioms, vstd::set::group_set_axioms, vstd::seq::group_seq_axioms};

/// The views of an entry list: each entry as (key view, value deep view).
pub open spec fn entry_views<V: DeepView>(s: Seq<(String, V)>) -> Seq<(Seq<char>, V::V)> {
    Seq::new(s.len(), |i: int| (s[i].0@, s[i].1.deep_view()))
}

/// A key occurs in an association list.
pub open spec fn has_key<T>(s: Seq<(Seq<char>, T)>, k: Seq<char>) -> bool {
    exists|i: int| 0 <= i < s.len() && (#[trigger] s[i]).0 == k
}

/// A key is in the map of an association list exactly when some pair holds it.
pub proof fn lemma_pairs_map_contains<T>(s: Seq<(Seq<char>, T)>, k: Seq<char>)
    ensures
        pairs_map(s).contains_key(k) <==> has_key(s, k),
    decreases s.len(),
{
    if s.len() > 0 {
        lemma_pairs_map_contains(s.drop_last(), k);
        if s.last().0 == k {
            assert((#[trigger] s[s.len() - 1]).0 == k);
        } else {
            if has_key(s.drop_last(), k) {
                let i = choose|i: int| 0 <= i < s.drop_last().len()
                    && (#[trigger] s.drop_last()[i]).0 == k;
                assert((#[trigger] s[i]).0 == k);
            }
            if has_key(s, k) {
                let i = choose|i: int| 0 <= i < s.len() && (#[trigger] s[i]).0 == k;
                assert(i < s.len() - 1);
                assert((#[trigger] s.drop_last()[i]).0 == k);
            }
        }
    }
}

/// Dropping the last pair of a unique association list keeps it unique.
pub proof fn lemma_pairs_unique_drop_last<T>(s: Seq<(Seq<char>, T)>)
    requires
        pairs_unique(s),
        s.len() > 0,
    ensures
        pairs_unique(s.drop_last()),
{
    assert forall|i: int, j: int| 0 <= i < j < s.drop_last().len() implies (
        #[trigger] s.drop_last()[i]).0 != (#[trigger] s.drop_last()[j]).0 by {
        assert((#[trigger] s[i]).0 != (#[trigger] s[j]).0);
    }
}

/// In a unique association list, each pair's key maps to that pair's value.
pub proof fn lemma_pairs_map_index<T>(s: Seq<(Seq<char>, T)>, i: int)
    requires
        pairs_unique(s),
        0 <= i < s.len(),
    ensures
        pairs_map(s).contains_key(s[i].0),
        pairs_map(s)[s[i].0] == s[i].1,
    decreases s.len(),
{
    if i < s.len() - 1 {
        lemma_pairs_unique_drop_last(s);
        lemma_pairs_map_index(s.drop_last(), i);
        assert((#[trigger] s[i]).0 != (#[trigger] s[s.len() - 1]).0);
        assert(s.drop_last()[i] == s[i]);
    }
}

/// Removing a pair of a unique association list removes its key of the map.
pub proof fn lemma_pairs_map_remove<T>(s: Seq<(Seq<char>, T)>, i: int)
    requires
        pairs_unique(s),
        0 <= i < s.len(),
    ensures
        pairs_unique(s.remove(i)),
        pairs_map(s.remove(i)) =~= pairs_map(s).remove(s[i].0),
    decreases s.len(),
{
    assert forall|x: int, y: int| 0 <= x < y < s.remove(i).len() implies (
        #[trigger] s.remove(i)[x]).0 != (#[trigger] s.remove(i)[y]).0 by {
        let sx: int = if x < i { x } else { x + 1 };
        let sy: int = if y < i { y } else { y + 1 };
        assert((#[trigger] s[sx]).0 != (#[trigger] s[sy]).0);
    }
    lemma_pairs_unique_drop_last(s);
    if i == s.len() - 1 {
        assert(s.remove(i) =~= s.drop_last());
        lemma_pairs_map_contains(s.drop_last(), s[i].0);
        assert(!has_key(s.drop_last(), s[i].0)) by {
            if has_key(s.drop_last(), s[i].0) {
                let j = choose|j: int| 0 <= j < s.drop_last().len()
                    && (#[trigger] s.drop_last()[j]).0 == s[i].0;
                assert((#[trigger] s[j]).0 != (#[trigger] s[i]).0);
            }
        }
        assert(pairs_map(s.drop_last()) =~= pairs_map(s).remove(s[i].0));
    } else {
        let t = s.remove(i);
        lemma_pairs_map_remove(s.drop_last(), i);
        assert(t.drop_last() =~= s.drop_last().remove(i));
        assert(t.last() == s.last());
        assert(s.drop_last()[i] == s[i]);
        assert(pairs_map(t) == pairs_map(s.drop_last().remove(i)).insert(s.last().0, s.last().1));
        assert((#[trigger] s[i]).0 != (#[trigger] s[s.len() - 1]).0);
        assert(pairs_map(s.drop_last()).remove(s[i].0).insert(s.last().0, s.last().1)
            =~= pairs_map(s.drop_last()).insert(s.last().0, s.last().1).remove(s[i].0));
    }
}

/// Replacing the value of a pair, keeping its key, updates the map at that key.
pub proof fn lemma_pairs_map_update<T>(s: Seq<(Seq<char>, T)>, i: int, p: (Seq<char>, T))
    requires
        pairs_unique(s),
        0 <= i < s.len(),
        p.0 == s[i].0,
    ensures
        pairs_unique(s.update(i, p)),
        pairs_map(s.update(i, p)) =~= pairs_map(s).insert(p.0, p.1),
    decreases s.len(),
{
    assert forall|x: int, y: int| 0 <= x < y < s.update(i, p).len() implies (
        #[trigger] s.update(i, p)[x]).0 != (#[trigger] s.update(i, p)[y]).0 by {
        assert((#[trigger] s[x]).0 != (#[trigger] s[y]).0);
    }
    lemma_pairs_unique_drop_last(s);
    if i == s.len() - 1 {
        assert(s.update(i, p).drop_last() =~= s.drop_last());
        assert(s.update(i, p).last() == p);
        assert(pairs_map(s.drop_last()).insert(p.0, p.1)
            =~= pairs_map(s.drop_last()).insert(s.last().0, s.last().1).insert(p.0, p.1));
    } else {
        let t = s.update(i, p);
        lemma_pairs_map_update(s.drop_last(), i, p);
        assert(t.drop_last() =~= s.drop_last().update(i, p));
        assert(t.last() == s.last());
        assert(s.drop_last()[i] == s[i]);
        assert(pairs_map(t) == pairs_map(s.drop_last().update(i, p)).insert(s.last().0, s.last().1));
        assert((#[trigger] s[i]).0 != (#[trigger] s[s.len() - 1]).0);
        assert(pairs_map(s.drop_last()).insert(p.0, p.1).insert(s.last().0, s.last().1)
            =~= pairs_map(s.drop_last()).insert(s.last().0, s.last().1).insert(p.0, p.1));
    }
}

/// Appending a pair inserts its key into the map.
pub proof fn lemma_pairs_map_push<T>(s: Seq<(Seq<char>, T)>, p: (Seq<char>, T))
    ensures
        pairs_map(s.push(p)) == pairs_map(s).insert(p.0, p.1),
{
    assert(s.push(p).drop_last() =~= s);
    assert(s.push(p).last() == p);
}

/// Appending a pair whose key is absent keeps an association list unique.
pub proof fn lemma_pairs_push_unique<T>(s: Seq<(Seq<char>, T)>, p: (Seq<char>, T))
    requires
        pairs_unique(s),
        !pairs_map(s).contains_key(p.0),
    ensures
        pairs_unique(s.push(p)),
{
    lemma_pairs_map_contains(s, p.0);
    assert forall|x: int, y: int| 0 <= x < y < s.push(p).len() implies (
        #[trigger] s.push(p)[x]).0 != (#[trigger] s.push(p)[y]).0 by {
        if y < s.len() {
            assert((#[trigger] s[x]).0 != (#[trigger] s[y]).0);
        } else {
            assert(s.push(p)[y] == p);
            assert(s.push(p)[x] == s[x]);
            if (#[trigger] s[x]).0 == p.0 {
                assert(has_key(s, p.0));
            }
        }
    }
}

/// Mapping each value of a map maps each value of its association list.
pub proof fn lemma_map_values_insert<T, U>(
    m: Map<Seq<char>, T>,
    k: Seq<char>,
    v: T,
    f: spec_fn(T) -> U,
)
    ensures
        m.insert(k, v).map_values(f) =~= m.map_values(f).insert(k, f(v)),
{
}

/// An association list mapped pair-wise by a function on values describes
/// the value-mapped map of the original list.
pub proof fn lemma_pairs_map_map_values<T, U>(
    s: Seq<(Seq<char>, T)>,
    t: Seq<(Seq<char>, U)>,
    f: spec_fn(T) -> U,
)
    requires
        t.len() == s.len(),
        forall|i: int| 0 <= i < s.len() ==> #[trigger] t[i] == ((#[trigger] s[i]).0, f(s[i].1)),
    ensures
        pairs_map(t) =~= pairs_map(s).map_values(f),
    decreases s.len(),
{
    if s.len() == 0 {
        assert(pairs_map(t) =~= pairs_map(s).map_values(f));
    } else {
        assert forall|i: int| 0 <= i < s.drop_last().len() implies #[trigger] t.drop_last()[i]
            == ((#[trigger] s.drop_last()[i]).0, f(s.drop_last()[i].1)) by {
            assert(t[i] == (s[i].0, f(s[i].1)));
        }
        lemma_pairs_map_map_values(s.drop_last(), t.drop_last(), f);
        lemma_map_values_insert(pairs_map(s.drop_last()), s.last().0, s.last().1, f);
        assert(t.last() == (s.last().0, f(s.last().1))) by {
            assert(t[s.len() - 1] == (s[s.len() - 1].0, f(s[s.len() - 1].1)));
        }
    }
}

/// A map from attribute name to value; names are pairwise distinct.
#[derive(Debug, Clone, PartialEq, Eq)]
pub struct AttrMap<V> {
    pub entries: Vec<(String, V)>,
}

impl<V: DeepView> View for AttrMap<V> {
    type V = Map<Seq<char>, V::V>;

    open spec fn view(&self) -> Map<Seq<char>, V::V> {
        pairs_map(entry_views(self.entries@))
    }
}

impl<V: DeepView> DeepView for AttrMap<V> {
    type V = Map<Seq<char>, V::V>;

    open spec fn deep_view(&self) -> Map<Seq<char>, V::V> {
        self.view()
    }
}

impl<V: DeepView> AttrMap<V> {
    /// Well-formedness: entry keys are pairwise distinct.
    pub open spec fn wf(&self) -> bool {
        pairs_unique(entry_views(self.entries@))
    }

    /// The empty attribute map.
    pub fn new() -> (r: Self)
        ensures
            r@ == Map::<Seq<char>, V::V>::empty(),
            r.wf(),
            r.entries@.len() == 0,
    {
        let r = AttrMap { entries: Vec::new() };
        proof {
            assert(entry_views(r.entries@) =~= Seq::<(Seq<char>, V::V)>::empty());
        }
        r
    }

    /// Whether no attribute is present.
    pub fn is_empty(&self) -> (r: bool)
        ensures
            r <==> self@ == Map::<Seq<char>, V::V>::empty(),
    {
        proof {
            if self.entries@.len() == 0 {
                assert(entry_views(self.entries@) =~= Seq::<(Seq<char>, V::V)>::empty());
            } else {
                let vs = entry_views(self.entries@);
                lemma_pairs_map_contains(vs, vs.last().0);
                assert((#[trigger] vs[vs.len() - 1]).0 == vs.last().0);
            }
        }
        self.entries.len() == 0
    }

    /// Take the named attribute out of the map, if present.
    pub fn remove(&mut self, key: &str) -> (r: Option<V>)
        requires
            old(self).wf(),
        ensures
            final(self).wf(),
            final(self)@ == old(self)@.remove(key@),
            match r {
                Some(v) => old(self)@.contains_key(key@) && v.deep_view() == old(self)@[key@]
                    && (exists|i: int| 0 <= i < old(self).entries@.len() && (
                    #[trigger] old(self).entries@[i]).1 == v),
                None => !old(self)@.contains_key(key@),
            },
            forall|j: int| 0 <= j < final(self).entries@.len() ==> (exists|i: int|
                0 <= i < old(self).entries@.len() && old(self).entries@[i] == (
                #[trigger] final(self).entries@[j])),
    {
        let n = self.entries.len();
        for i in 0..n
            invariant
                n == self.entries.len(),
                *self == *old(self),
                self.wf(),
                forall|j: int| 0 <= j < i ==> (#[trigger] entry_views(self.entries@)[j]).0 != key@,
        {
            if str_eq(self.entries[i].0.as_str(), key) {
                proof {
                    let vs = entry_views(self.entries@);
                    assert(vs[i as int].0 == key@);
                    lemma_pairs_map_index(vs, i as int);
                    lemma_pairs_map_remove(vs, i as int);
                }
                let p = self.entries.remove(i);
                proof {
                    assert(entry_views(self.entries@) =~= entry_views(
                        old(self).entries@).remove(i as int));
                    assert(final(self)@ =~= old(self)@.remove(key@));
                }
                return Some(p.1);
            }
        }
        proof {
            let vs = entry_views(self.entries@);
            assert(!has_key(vs, key@)) by {
                if has_key(vs, key@) {
                    let j = choose|j: int| 0 <= j < vs.len() && (#[trigger] vs[j]).0 == key@;
                }
            }
            lemma_pairs_map_contains(vs, key@);
            assert(old(self)@.remove(key@) =~= old(self)@);
        }
        None
    }

    /// Look the named attribute up without taking it out.
    pub fn get(&self, key: &str) -> (r: Option<&V>)
        requires
            self.wf(),
        ensures
            match r {
                Some(v) => self@.contains_key(key@) && v.deep_view() == self@[key@],
                None => !self@.contains_key(key@),
            },
    {
        let n = self.entries.len();
        for i in 0..n
            invariant
                n == self.entries.len(),
                self.wf(),
                forall|j: int| 0 <= j < i ==> (#[trigger] entry_views(self.entries@)[j]).0 != key@,
        {
            if str_eq(self.entries[i].0.as_str(), key) {
                proof {
                    let vs = entry_views(self.entries@);
                    assert(vs[i as int].0 == key@);
                    lemma_pairs_map_index(vs, i as int);
                }
                return Some(&self.entries[i].1);
            }
        }
        proof {
            let vs = entry_views(self.entries@);
            assert(!has_key(vs, key@)) by {
                if has_key(vs, key@) {
                    let j = choose|j: int| 0 <= j < vs.len() && (#[trigger] vs[j]).0 == key@;
                }
            }
            lemma_pairs_map_contains(vs, key@);
        }
        None
    }

    /// Put an attribute in the map, replacing any previous value of the name.
    pub fn insert(&mut self, key: String, value: V)
        requires
            old(self).wf(),
        ensures
            final(self).wf(),
            final(self)@ == old(self)@.insert(key@, value.deep_view()),
            forall|j: int| 0 <= j < final(self).entries@.len() ==> ((
                #[trigger] final(self).entries@[j]).1 == value || (exists|i: int|
                0 <= i < old(self).entries@.len() && old(self).entries@[i].1
                    == final(self).entries@[j].1)),
    {
        let n = self.entries.len();
        for i in 0..n
            invariant
                n == self.entries.len(),
                *self == *old(self),
                self.wf(),
                forall|j: int| 0 <= j < i ==> (#[trigger] entry_views(self.entries@)[j]).0 != key@,
        {
            if str_eq(self.entries[i].0.as_str(), key.as_str()) {
                proof {
                    let vs = entry_views(self.entries@);
                    assert(vs[i as int].0 == key@);
                    lemma_pairs_map_update(vs, i as int, (key@, value.deep_view()));
                }
                self.entries[i] = (key, value);
                proof {
                    assert(entry_views(self.entries@) =~= entry_views(old(self).entries@).update(
                        i as int, (key@, value.deep_view())));
                    assert(final(self)@ =~= old(self)@.insert(key@, value.deep_view()));
                }
                return;
            }
        }
        proof {
            let vs = entry_views(self.entries@);
            assert(!has_key(vs, key@)) by {
                if has_key(vs, key@) {
                    let j = choose|j: int| 0 <= j < vs.len() && (#[trigger] vs[j]).0 == key@;
                }
            }
            lemma_pairs_map_push(vs, (key@, value.deep_view()));
        }
        self.entries.push((key, value));
        proof {
            assert(entry_views(self.entries@) =~= entry_views(old(self).entries@).push(
                (key@, value.deep_view())));
            let vs = entry_views(old(self).entries@);
            assert forall|x: int, y: int| 0 <= x < y < entry_views(self.entries@).len() implies (
                #[trigger] entry_views(self.entries@)[x]).0 != (
                #[trigger] entry_views(self.entries@)[y]).0 by {
                if y < vs.len() {
                    assert((#[trigger] vs[x]).0 != (#[trigger] vs[y]).0);
                } else {
                    assert((#[trigger] vs[x]).0 != key@);
                }
            }
            assert(final(self)@ =~= old(self)@.insert(key@, value.deep_view()));
        }
    }
}

} // verus!
