//! Ordered tables.
//!
//! A [`Table`] holds at most one value per key and walks its entries in key
//! order. Its model is a map from the key's view to the value's view; the order
//! of a walk is [`ascending`] of the map's domain.
use crate::text::{before, before_irreflexive, before_total, before_transitive, comes_before, same};
use vstd::prelude::*;

verus! {

/// Something a table can be ordered by.
pub trait Key: View + Sized {
    /// Whether `a` comes before `b`.
    spec fn lt(a: Self::V, b: Self::V) -> bool;

    /// Nothing comes before itself.
    proof fn irreflexive(a: Self::V)
        ensures
            !Self::lt(a, a),
    ;

    /// The order can be followed through a third key.
    proof fn transitive(a: Self::V, b: Self::V, c: Self::V)
        requires
            Self::lt(a, b),
            Self::lt(b, c),
        ensures
            Self::lt(a, c),
    ;

    /// Of two different keys one comes first.
    proof fn total(a: Self::V, b: Self::V)
        ensures
            Self::lt(a, b) || a == b || Self::lt(b, a),
    ;

    /// Compares two keys by order.
    fn less(&self, other: &Self) -> (r: bool)
        ensures
            r == Self::lt(self@, other@),
    ;

    /// Compares two keys for equality.
    fn equal(&self, other: &Self) -> (r: bool)
        ensures
            r == (self@ == other@),
    ;

    /// A second key with the same view.
    fn duplicate(&self) -> (r: Self)
        ensures
            r@ == self@,
    ;
}

impl Key for u64 {
    open spec fn lt(a: u64, b: u64) -> bool {
        a < b
    }

    proof fn irreflexive(a: u64) {
    }

    proof fn transitive(a: u64, b: u64, c: u64) {
    }

    proof fn total(a: u64, b: u64) {
    }

    fn less(&self, other: &u64) -> (r: bool) {
        *self < *other
    }

    fn equal(&self, other: &u64) -> (r: bool) {
        *self == *other
    }

    fn duplicate(&self) -> (r: u64) {
        *self
    }
}

impl Key for u16 {
    open spec fn lt(a: u16, b: u16) -> bool {
        a < b
    }

    proof fn irreflexive(a: u16) {
    }

    proof fn transitive(a: u16, b: u16, c: u16) {
    }

    proof fn total(a: u16, b: u16) {
    }

    fn less(&self, other: &u16) -> (r: bool) {
        *self < *other
    }

    fn equal(&self, other: &u16) -> (r: bool) {
        *self == *other
    }

    fn duplicate(&self) -> (r: u16) {
        *self
    }
}

impl Key for String {
    open spec fn lt(a: Seq<char>, b: Seq<char>) -> bool {
        before(a, b)
    }

    proof fn irreflexive(a: Seq<char>) {
        before_irreflexive(a);
    }

    proof fn transitive(a: Seq<char>, b: Seq<char>, c: Seq<char>) {
        before_transitive(a, b, c);
    }

    proof fn total(a: Seq<char>, b: Seq<char>) {
        before_total(a, b);
    }

    fn less(&self, other: &String) -> (r: bool) {
        comes_before(self.as_str(), other.as_str())
    }

    fn equal(&self, other: &String) -> (r: bool) {
        same(self.as_str(), other.as_str())
    }

    fn duplicate(&self) -> (r: String) {
        self.clone()
    }
}

/// Each entry comes before every later one.
pub open spec fn sorted<K: Key>(q: Seq<K::V>) -> bool {
    forall|i: int, j: int| 0 <= i < j < q.len() ==> K::lt(#[trigger] q[i], #[trigger] q[j])
}

/// The members of a set in key order.
pub open spec fn ascending<K: Key>(s: Set<K::V>) -> Seq<K::V> {
    choose|q: Seq<K::V>| #[trigger] sorted::<K>(q) && q.to_set() == s
}

/// There are only so many numbers of 64 bits.
pub proof fn numbers_are_finite(s: Set<u64>)
    ensures
        s.finite(),
{
    let all = vstd::set_lib::set_int_range(0, u64::MAX + 1);
    vstd::set_lib::lemma_int_range(0, u64::MAX + 1);
    let f = |i: int| i as u64;
    all.lemma_map_finite(f);
    assert(s.subset_of(all.map(f))) by {
        assert forall|x: u64| s.contains(x) implies all.map(f).contains(x) by {
            assert(all.contains(x as int) && f(x as int) == x);
        }
    }
    vstd::set_lib::lemma_set_subset_finite(all.map(f), s);
}

/// Two sorted lists of the same keys are the same list.
pub proof fn sorted_is_unique<K: Key>(a: Seq<K::V>, b: Seq<K::V>)
    requires
        sorted::<K>(a),
        sorted::<K>(b),
        a.to_set() == b.to_set(),
    ensures
        a == b,
    decreases a.len(),
{
    if a.len() == 0 {
        if b.len() > 0 {
            assert(b.to_set().contains(b[0]));
            assert(a.to_set().contains(b[0]));
        }
        assert(a =~= b);
    } else {
        assert(a.to_set().contains(a.last()));
        assert(b.contains(a.last()));
        assert(b.len() > 0);
        assert(b.to_set().contains(b.last()));
        assert(a.contains(b.last()));
        let i = choose|i: int| 0 <= i < b.len() && b[i] == a.last();
        let j = choose|j: int| 0 <= j < a.len() && a[j] == b.last();
        if i < b.len() - 1 {
            assert(K::lt(b[i], b[b.len() - 1]));
            if j < a.len() - 1 {
                assert(K::lt(a[j], a[a.len() - 1]));
                K::transitive(a.last(), b.last(), a.last());
            }
            K::irreflexive(a.last());
        }
        assert(a.last() == b.last());
        let x = a.drop_last();
        let y = b.drop_last();
        assert forall|k: K::V| x.to_set().contains(k) == y.to_set().contains(k) by {
            sorted_last_is_apart::<K>(a, k);
            sorted_last_is_apart::<K>(b, k);
        }
        assert(x.to_set() =~= y.to_set());
        sorted_is_unique::<K>(x, y);
        assert(a =~= x.push(a.last()));
        assert(b =~= y.push(b.last()));
    }
}

proof fn sorted_last_is_apart<K: Key>(a: Seq<K::V>, k: K::V)
    requires
        sorted::<K>(a),
        a.len() > 0,
    ensures
        a.drop_last().to_set().contains(k) <==> a.to_set().contains(k) && k != a.last(),
{
    let x = a.drop_last();
    if x.to_set().contains(k) {
        let i = choose|i: int| 0 <= i < x.len() && x[i] == k;
        assert(a[i] == k);
        assert(K::lt(a[i], a[a.len() - 1]));
        K::irreflexive(k);
    }
    if a.to_set().contains(k) && k != a.last() {
        let i = choose|i: int| 0 <= i < a.len() && a[i] == k;
        assert(x[i] == k);
    }
}

/// A sorted list is what [`ascending`] gives for its members.
pub proof fn ascending_of_sorted<K: Key>(q: Seq<K::V>)
    requires
        sorted::<K>(q),
    ensures
        ascending::<K>(q.to_set()) == q,
{
    let r = ascending::<K>(q.to_set());
    assert(sorted::<K>(q) && q.to_set() == q.to_set());
    sorted_is_unique::<K>(r, q);
}

/// Every finite set can be listed in key order.
pub proof fn ascending_lists_the_set<K: Key>(s: Set<K::V>)
    requires
        s.finite(),
    ensures
        sorted::<K>(ascending::<K>(s)),
        ascending::<K>(s).to_set() == s,
    decreases s.len(),
{
    if s.len() == 0 {
        s.lemma_len0_is_empty();
        let q = Seq::<K::V>::empty();
        assert(q.to_set() =~= s);
        assert(sorted::<K>(q) && q.to_set() == s);
    } else {
        let a = s.choose();
        let less = s.remove(a);
        ascending_lists_the_set::<K>(less);
        let q = ascending::<K>(less);
        let i = place_for::<K>(q, a, 0);
        place_for_splits::<K>(q, a, 0);
        let r = q.insert(i, a);
        assert forall|x: int, y: int| 0 <= x < y < r.len() implies K::lt(
            #[trigger] r[x],
            #[trigger] r[y],
        ) by {
            if x == i {
                assert(r[y] == q[y - 1]);
                if y - 1 > i {
                    K::transitive(a, q[i], q[y - 1]);
                }
            } else if y == i {
                let e = q[x];
                assert(less.contains(e));
                K::total(e, a);
            }
        }
        assert forall|k: K::V| r.to_set().contains(k) <==> s.contains(k) by {
            if r.contains(k) {
                let j = choose|j: int| 0 <= j < r.len() && r[j] == k;
                if j < i {
                    assert(q.to_set().contains(q[j]));
                } else if j > i {
                    assert(q.to_set().contains(q[j - 1]));
                }
            }
            if s.contains(k) {
                if k == a {
                    assert(r[i] == a);
                } else {
                    assert(q.to_set().contains(k));
                    let j = choose|j: int| 0 <= j < q.len() && q[j] == k;
                    if j < i {
                        assert(r[j] == k);
                    } else {
                        assert(r[j + 1] == k);
                    }
                }
            }
        }
        assert(r.to_set() =~= s);
        assert(sorted::<K>(r) && r.to_set() == s);
    }
}

/// The first place at or after `i` whose key comes after `a`.
spec fn place_for<K: Key>(q: Seq<K::V>, a: K::V, i: int) -> int
    decreases q.len() - i,
{
    if i < 0 || i >= q.len() {
        q.len() as int
    } else if K::lt(a, q[i]) {
        i
    } else {
        place_for::<K>(q, a, i + 1)
    }
}

proof fn place_for_splits<K: Key>(q: Seq<K::V>, a: K::V, i: int)
    requires
        0 <= i <= q.len(),
        forall|j: int| 0 <= j < i ==> !K::lt(a, #[trigger] q[j]),
    ensures
        i <= place_for::<K>(q, a, i) <= q.len(),
        forall|j: int| 0 <= j < place_for::<K>(q, a, i) ==> !K::lt(a, #[trigger] q[j]),
        place_for::<K>(q, a, i) < q.len() ==> K::lt(a, q[place_for::<K>(q, a, i)]),
    decreases q.len() - i,
{
    if i < q.len() && !K::lt(a, q[i]) {
        place_for_splits::<K>(q, a, i + 1);
    }
}

/// The entries of a map whose value passes a test.
pub open spec fn kept<A, B>(m: Map<A, B>, p: spec_fn(B) -> bool) -> Map<A, B> {
    m.restrict(Set::new(|k: A| m.dom().contains(k) && p(m[k])))
}

/// At most one value per key, walked in key order.
pub struct Table<K: Key, V: View> {
    entries: Vec<(K, V)>,
}

spec fn keys_of<K: Key, V>(e: Seq<(K, V)>) -> Seq<K::V> {
    e.map_values(|p: (K, V)| p.0@)
}

spec fn place<K: Key, V>(e: Seq<(K, V)>, k: K::V) -> int {
    choose|i: int| 0 <= i < e.len() && #[trigger] e[i].0@ == k
}

spec fn map_of<K: Key, V: View>(e: Seq<(K, V)>) -> Map<K::V, V::V> {
    Map::new(|k: K::V| keys_of(e).contains(k), |k: K::V| e[place(e, k)].1@)
}

proof fn found_at<K: Key, V: View>(e: Seq<(K, V)>, i: int)
    requires
        sorted::<K>(keys_of(e)),
        0 <= i < e.len(),
    ensures
        map_of(e).dom().contains(e[i].0@),
        map_of(e)[e[i].0@] == e[i].1@,
        place(e, e[i].0@) == i,
{
    let k = e[i].0@;
    assert(keys_of(e)[i] == k);
    assert(keys_of(e).contains(k));
    let j = place(e, k);
    assert(0 <= j < e.len() && e[j].0@ == k);
    assert(keys_of(e)[j] == k);
    if i < j {
        assert(K::lt(keys_of(e)[i], keys_of(e)[j]));
        K::irreflexive(k);
    } else if j < i {
        assert(K::lt(keys_of(e)[j], keys_of(e)[i]));
        K::irreflexive(k);
    }
}

impl<K: Key, V: View> View for Table<K, V> {
    type V = Map<K::V, V::V>;

    closed spec fn view(&self) -> Map<K::V, V::V> {
        map_of(self.entries@)
    }
}

impl<K: Key, V: View> Table<K, V> {
    #[verifier::type_invariant]
    spec fn in_order(self) -> bool {
        sorted::<K>(keys_of(self.entries@))
    }

    /// The keys, in the order of a walk.
    pub open spec fn keys(&self) -> Seq<K::V> {
        ascending::<K>(self@.dom())
    }

    proof fn keys_are(&self)
        requires
            self.in_order(),
        ensures
            self.keys() == keys_of(self.entries@),
            self@.dom().finite(),
            self@.dom() == keys_of(self.entries@).to_set(),
    {
        let q = keys_of(self.entries@);
        assert(self@.dom() =~= q.to_set());
        ascending_of_sorted::<K>(q);
        vstd::seq_lib::seq_to_set_is_finite(q);
    }

    /// A table with nothing in it.
    pub fn new() -> (r: Self)
        ensures
            r@ == Map::<K::V, V::V>::empty(),
    {
        let t = Table { entries: Vec::<(K, V)>::new() };
        assert(t@ =~= Map::<K::V, V::V>::empty());
        t
    }

    /// How many entries there are.
    pub fn len(&self) -> (n: usize)
        ensures
            n == self.keys().len(),
            n == self@.dom().len(),
            self@.dom().finite(),
            sorted::<K>(self.keys()),
            self.keys().to_set() == self@.dom(),
    {
        proof {
            use_type_invariant(self);
            self.keys_are();
            let q = keys_of(self.entries@);
            assert(q.no_duplicates()) by {
                assert forall|i: int, j: int| 0 <= i < q.len() && 0 <= j < q.len() && i != j implies q[i]
                    != q[j] by {
                    K::irreflexive(q[i]);
                    if i < j {
                        assert(K::lt(q[i], q[j]));
                    } else {
                        assert(K::lt(q[j], q[i]));
                    }
                }
            }
            q.unique_seq_to_set();
        }
        self.entries.len()
    }

    /// The key at a place of the walk.
    pub fn key_at(&self, i: usize) -> (k: &K)
        requires
            i < self.keys().len(),
        ensures
            k@ == self.keys()[i as int],
            self@.dom().contains(k@),
    {
        proof {
            use_type_invariant(self);
            self.keys_are();
            found_at(self.entries@, i as int);
        }
        &self.entries[i].0
    }

    /// The value at a place of the walk.
    pub fn value_at(&self, i: usize) -> (v: &V)
        requires
            i < self.keys().len(),
        ensures
            v@ == self@[self.keys()[i as int]],
            self@.dom().contains(self.keys()[i as int]),
    {
        proof {
            use_type_invariant(self);
            self.keys_are();
            found_at(self.entries@, i as int);
        }
        &self.entries[i].1
    }

    /// The place of a key, or where it would go.
    fn seek(&self, k: &K) -> (r: (usize, bool))
        ensures
            r.0 <= self.entries@.len(),
            r.1 == self@.dom().contains(k@),
            r.1 ==> r.0 < self.entries@.len() && self.entries@[r.0 as int].0@ == k@,
            forall|j: int| 0 <= j < r.0 ==> K::lt(#[trigger] self.entries@[j].0@, k@),
            forall|j: int|
                r.0 <= j < self.entries@.len() && !(r.1 && j == r.0) ==> K::lt(
                    k@,
                    #[trigger] self.entries@[j].0@,
                ),
    {
        proof {
            use_type_invariant(self);
        }
        let mut i: usize = 0;
        while i < self.entries.len() && self.entries[i].0.less(k)
            invariant
                i <= self.entries@.len(),
                forall|j: int| 0 <= j < i ==> K::lt(#[trigger] self.entries@[j].0@, k@),
            decreases self.entries@.len() - i,
        {
            i = i + 1;
        }
        let here = i < self.entries.len() && self.entries[i].0.equal(k);
        proof {
            let e = self.entries@;
            if here {
                found_at(e, i as int);
            } else {
                if i < e.len() {
                    K::total(e[i as int].0@, k@);
                }
            }
            assert forall|j: int| i <= j < e.len() && !(here && j == i) implies K::lt(
                k@,
                #[trigger] e[j].0@,
            ) by {
                assert(keys_of(e)[j] == e[j].0@);
                assert(keys_of(e)[i as int] == e[i as int].0@);
                if j > i {
                    assert(K::lt(keys_of(e)[i as int], keys_of(e)[j]));
                    if !here {
                        K::transitive(k@, e[i as int].0@, e[j].0@);
                    }
                }
            }
            if !here && self@.dom().contains(k@) {
                let j = choose|j: int| 0 <= j < keys_of(e).len() && keys_of(e)[j] == k@;
                assert(e[j].0@ == k@);
                K::irreflexive(k@);
                if j < i {
                } else {
                }
                assert(false);
            }
        }
        (i, here)
    }

    /// Whether there is a value for a key.
    pub fn has(&self, k: &K) -> (r: bool)
        ensures
            r == self@.dom().contains(k@),
    {
        self.seek(k).1
    }

    /// The value for a key.
    pub fn get(&self, k: &K) -> (r: Option<&V>)
        ensures
            r is Some <==> self@.dom().contains(k@),
            r matches Some(v) ==> v@ == self@[k@],
    {
        let (i, here) = self.seek(k);
        if here {
            proof {
                use_type_invariant(self);
                found_at(self.entries@, i as int);
            }
            Some(&self.entries[i].1)
        } else {
            None
        }
    }

    /// Takes a value out.
    pub fn remove(&mut self, k: &K) -> (r: Option<V>)
        ensures
            final(self)@ == old(self)@.remove(k@),
            r is Some <==> old(self)@.dom().contains(k@),
            r matches Some(v) ==> v@ == old(self)@[k@],
    {
        let (i, here) = self.seek(k);
        let ghost before = self.entries@;
        proof {
            use_type_invariant(&*self);
        }
        if here {
            let mut e: Vec<(K, V)> = Vec::new();
            proof {
                found_at(before, i as int);
            }
            std::mem::swap(&mut e, &mut self.entries);
            let (_, v) = e.remove(i);
            proof {
                let after = e@;
                assert(after =~= before.remove(i as int));
                assert forall|x: int, y: int| 0 <= x < y < keys_of(after).len() implies K::lt(
                    #[trigger] keys_of(after)[x],
                    #[trigger] keys_of(after)[y],
                ) by {
                    let p = if x < i { x } else { x + 1 };
                    let q = if y < i { y } else { y + 1 };
                    assert(K::lt(keys_of(before)[p], keys_of(before)[q]));
                }
                assert forall|c: K::V| map_of(after).dom().contains(c) <==> (map_of(
                    before,
                ).dom().contains(c) && c != k@) by {
                    if map_of(after).dom().contains(c) {
                        let x = choose|x: int| 0 <= x < keys_of(after).len() && keys_of(after)[x] == c;
                        let p = if x < i { x } else { x + 1 };
                        assert(before[p] == after[x]);
                        found_at(before, p);
                    }
                    if map_of(before).dom().contains(c) && c != k@ {
                        let p = choose|p: int| 0 <= p < keys_of(before).len() && keys_of(before)[p] == c;
                        let x = if p < i { p } else { p - 1 };
                        assert(before[p] == after[x]);
                        found_at(after, x);
                    }
                }
                assert forall|c: K::V| map_of(after).dom().contains(c) implies map_of(after)[c]
                    == map_of(before)[c] by {
                    let x = choose|x: int| 0 <= x < keys_of(after).len() && keys_of(after)[x] == c;
                    let p = if x < i { x } else { x + 1 };
                    assert(before[p] == after[x]);
                    found_at(before, p);
                    found_at(after, x);
                }
                assert(map_of(after) =~= map_of(before).remove(k@));
            }
            self.entries = e;
            Some(v)
        } else {
            assert(self@.remove(k@) =~= self@);
            None
        }
    }

    /// Puts a value in, in place of the one that was there.
    pub fn insert(&mut self, k: K, v: V)
        ensures
            final(self)@ == old(self)@.insert(k@, v@),
    {
        let gone = self.remove(&k);
        let (i, here) = self.seek(&k);
        let ghost before = self.entries@;
        proof {
            use_type_invariant(&*self);
        }
        let mut e: Vec<(K, V)> = Vec::new();
        let ghost kv = k@;
        let ghost vv = v@;
        std::mem::swap(&mut e, &mut self.entries);
        e.insert(i, (k, v));
        proof {
            let after = e@;
            assert forall|x: int, y: int| 0 <= x < y < keys_of(after).len() implies K::lt(
                #[trigger] keys_of(after)[x],
                #[trigger] keys_of(after)[y],
            ) by {
                if x != i && y != i {
                    let p = if x < i { x } else { x - 1 };
                    let q = if y < i { y } else { y - 1 };
                    assert(K::lt(keys_of(before)[p], keys_of(before)[q]));
                } else if x == i {
                    assert(before[y - 1].0@ == after[y].0@);
                } else {
                    assert(before[x].0@ == after[x].0@);
                }
            }
            assert forall|c: K::V| map_of(after).dom().contains(c) <==> (map_of(
                before,
            ).dom().contains(c) || c == kv) by {
                if map_of(after).dom().contains(c) {
                    let x = choose|x: int| 0 <= x < keys_of(after).len() && keys_of(after)[x] == c;
                    if x != i {
                        let p = if x < i { x } else { x - 1 };
                        assert(before[p] == after[x]);
                        found_at(before, p);
                    }
                }
                if c == kv {
                    found_at(after, i as int);
                } else if map_of(before).dom().contains(c) {
                    let p = choose|p: int| 0 <= p < keys_of(before).len() && keys_of(before)[p] == c;
                    let x = if p < i { p } else { p + 1 };
                    assert(before[p] == after[x]);
                    found_at(after, x);
                }
            }
            assert forall|c: K::V| map_of(after).dom().contains(c) implies map_of(after)[c] == (
            if c == kv {
                vv
            } else {
                map_of(before)[c]
            }) by {
                let x = choose|x: int| 0 <= x < keys_of(after).len() && keys_of(after)[x] == c;
                found_at(after, x);
                if x != i {
                    let p = if x < i { x } else { x - 1 };
                    assert(before[p] == after[x]);
                    found_at(before, p);
                    found_at(after, i as int);
                }
            }
            assert(map_of(after) =~= map_of(before).insert(kv, vv));
            assert(map_of(after) =~= old(self)@.insert(kv, vv));
        }
        self.entries = e;
    }

    /// Takes the first entry out.
    pub fn pop_first(&mut self) -> (r: Option<(K, V)>)
        ensures
            match r {
                Some((k, v)) => {
                    &&& old(self)@.dom().contains(k@)
                    &&& v@ == old(self)@[k@]
                    &&& final(self)@ == old(self)@.remove(k@)
                },
                None => final(self)@ == old(self)@ && old(self)@ == Map::<K::V, V::V>::empty(),
            },
    {
        if self.entries.len() == 0 {
            assert(self@ =~= Map::<K::V, V::V>::empty());
            return None;
        }
        let k = self.entries[0].0.duplicate();
        proof {
            use_type_invariant(&*self);
            found_at(self.entries@, 0);
        }
        match self.remove(&k) {
            Some(v) => Some((k, v)),
            None => None,
        }
    }

    /// Keeps the entries whose value passes a test.
    pub(crate) fn retain<F: Fn(&V) -> bool>(&mut self, keep: F, Ghost(p): Ghost<spec_fn(V::V) -> bool>)
        requires
            forall|v: &V| call_requires(keep, (v,)),
            forall|v: &V, r: bool| call_ensures(keep, (v,), r) ==> r == p(v@),
        ensures
            final(self)@ == kept(old(self)@, p),
    {
        let ghost all = self@;
        let mut out: Self = Table::new();
        let _ = self.len();
        loop
            invariant
                all == old(self)@,
                self@.dom().finite(),
                forall|v: &V| call_requires(keep, (v,)),
                forall|v: &V, r: bool| call_ensures(keep, (v,), r) ==> r == p(v@),
                forall|k: K::V|
                    all.dom().contains(k) && p(all[k]) <==> (#[trigger] out@.dom().contains(k) || (
                    self@.dom().contains(k) && p(all[k]))),
                forall|k: K::V| out@.dom().contains(k) ==> #[trigger] out@[k] == all[k],
                forall|k: K::V|
                    #[trigger] self@.dom().contains(k) ==> self@[k] == all[k] && all.dom().contains(k),
            ensures
                self@ == Map::<K::V, V::V>::empty(),
            decreases self@.dom().len(),
        {
            match self.pop_first() {
                Some((k, v)) => {
                    if keep(&v) {
                        out.insert(k, v);
                    }
                },
                None => {
                    break;
                },
            }
        }
        assert(out@ =~= kept(all, p));
        *self = out;
    }

    /// Takes everything out.
    pub fn clear(&mut self)
        ensures
            final(self)@ == Map::<K::V, V::V>::empty(),
    {
        let mut e: Vec<(K, V)> = Vec::new();
        std::mem::swap(&mut e, &mut self.entries);
        assert(self@ =~= Map::<K::V, V::V>::empty());
    }
}

/// A set listed in key order is listed whole and each member once, the smaller ones
/// first.
pub proof fn each_is_listed_once<K: Key>(s: Set<K::V>)
    requires
        s.finite(),
    ensures
        ascending::<K>(s).len() == s.len(),
        ascending::<K>(s).no_duplicates(),
        forall|a: K::V| #[trigger] ascending::<K>(s).contains(a) <==> s.contains(a),
        forall|i: int, j: int|
            0 <= i < j < ascending::<K>(s).len() ==> K::lt(
                #[trigger] ascending::<K>(s)[i],
                #[trigger] ascending::<K>(s)[j],
            ),
{
    ascending_lists_the_set::<K>(s);
    let q = ascending::<K>(s);
    assert forall|i: int, j: int| 0 <= i < q.len() && 0 <= j < q.len() && i != j implies q[i]
        != q[j] by {
        K::irreflexive(q[i]);
        if i < j {
            assert(K::lt(q[i], q[j]));
        } else {
            assert(K::lt(q[j], q[i]));
        }
    }
    q.unique_seq_to_set();
    assert forall|a: K::V| #[trigger] q.contains(a) <==> s.contains(a) by {
        assert(q.to_set().contains(a) <==> q.contains(a));
    }
}

/// Numbers come in the order of their size, and texts in that of their characters: the
/// one with the smaller character where they first differ, or the shorter where it is
/// how the other begins.
pub proof fn keys_come_in_their_natural_order(
    m: u64,
    n: u64,
    t: u16,
    u: u16,
    a: Seq<char>,
    b: Seq<char>,
    common: Seq<char>,
    c: char,
    d: char,
)
    ensures
        <u64 as Key>::lt(m, n) <==> m < n,
        <u16 as Key>::lt(t, u) <==> t < u,
        c < d ==> <String as Key>::lt(common + seq![c] + a, common + seq![d] + b),
        <String as Key>::lt(common, common + seq![c] + a),
    decreases common.len(),
{
    if common.len() > 0 {
        let rest = common.drop_first();
        keys_come_in_their_natural_order(m, n, t, u, a, b, rest, c, d);
        assert((common + seq![c] + a).drop_first() =~= rest + seq![c] + a);
        assert((common + seq![d] + b).drop_first() =~= rest + seq![d] + b);
    }
}

} // verus!
