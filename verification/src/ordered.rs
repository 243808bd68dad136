//! Maps and sets that keep their keys in order.
use crate::text;
use vstd::prelude::*;
use vstd::string::*;

verus! {

/// Something that has a place in a strict order.
pub trait OrderedKey: Sized {
    /// What decides on the place.
    type Key;

    /// What decides on the place.
    spec fn key(&self) -> Self::Key;

    /// Whether one place is before another.
    spec fn before(a: Self::Key, b: Self::Key) -> bool;

    /// The order is strict and total.
    proof fn order(a: Self::Key, b: Self::Key, c: Self::Key)
        ensures
            !Self::before(a, a),
            Self::before(a, b) && Self::before(b, c) ==> Self::before(a, c),
            a != b ==> Self::before(a, b) || Self::before(b, a),
    ;

    /// Whether this one's place is before the other's.
    fn precedes(&self, other: &Self) -> (r: bool)
        ensures
            r == Self::before(self.key(), other.key()),
    ;

    /// A copy.
    fn copy(&self) -> (r: Self)
        ensures
            r == *self,
    ;
}

/// What decides on the places of some keys.
pub open spec fn places<K: OrderedKey>(v: Seq<K>) -> Seq<K::Key> {
    v.map_values(|k: K| k.key())
}

/// Whether places stand in strictly increasing order.
pub open spec fn increasing<K: OrderedKey>(s: Seq<K::Key>) -> bool {
    forall|i: int, j: int| 0 <= i < j < s.len() ==> K::before(#[trigger] s[i], #[trigger] s[j])
}

/// Whether a sequence lists the members of a set in order.
pub open spec fn is_listing<K: OrderedKey>(d: Set<K::Key>, s: Seq<K::Key>) -> bool {
    increasing::<K>(s) && forall|k: K::Key| #[trigger] s.contains(k) <==> d.contains(k)
}

/// The members of a set in order.
pub open spec fn listed<K: OrderedKey>(d: Set<K::Key>) -> Seq<K::Key> {
    choose|s: Seq<K::Key>| is_listing::<K>(d, s)
}

proof fn lemma_increasing_unique<K: OrderedKey>(a: Seq<K::Key>, b: Seq<K::Key>)
    requires
        increasing::<K>(a),
        increasing::<K>(b),
        forall|k: K::Key| #[trigger] a.contains(k) <==> b.contains(k),
    ensures
        a == b,
    decreases a.len(),
{
    if a.len() == 0 {
        if b.len() > 0 {
            assert(b.contains(b[0]));
            assert(a.contains(b[0]));
        }
        assert(a =~= b);
    } else {
        assert(a.contains(a.last()));
        assert(b.contains(a.last()));
        assert(b.contains(b.last()));
        assert(a.contains(b.last()));
        let i = b.index_of(a.last());
        let j = a.index_of(b.last());
        assert(a.last() == b.last()) by {
            if a.last() != b.last() {
                assert(K::before(b[i], b[b.len() - 1]));
                assert(K::before(a[j], a[a.len() - 1]));
                K::order(a.last(), b.last(), a.last());
            }
        }
        let c = a.drop_last();
        let d = b.drop_last();
        assert forall|k: K::Key| #[trigger] c.contains(k) <==> d.contains(k) by {
            K::order(k, k, k);
            if c.contains(k) {
                let x = c.index_of(k);
                assert(a[x] == k);
                assert(a.contains(k));
                let y = b.index_of(k);
                assert(K::before(a[x], a[a.len() - 1]));
                assert(y < b.len() - 1);
                assert(d[y] == k);
            }
            if d.contains(k) {
                let x = d.index_of(k);
                assert(b[x] == k);
                assert(b.contains(k));
                assert(a.contains(k));
                let y = a.index_of(k);
                assert(K::before(b[x], b[b.len() - 1]));
                assert(y < a.len() - 1);
                assert(c[y] == k);
            }
        }
        lemma_increasing_unique::<K>(c, d);
        assert(a =~= c.push(a.last()));
        assert(b =~= d.push(b.last()));
    }
}

/// A set has only one listing.
pub proof fn lemma_listed<K: OrderedKey>(d: Set<K::Key>, s: Seq<K::Key>)
    requires
        is_listing::<K>(d, s),
    ensures
        listed::<K>(d) == s,
{
    let t = listed::<K>(d);
    assert(is_listing::<K>(d, t));
    lemma_increasing_unique::<K>(t, s);
}

/// What is part of a listed set has a listing too.
pub proof fn lemma_part_listed<K: OrderedKey>(s: Seq<K::Key>, d: Set<K::Key>) -> (t: Seq<K::Key>)
    requires
        increasing::<K>(s),
        forall|k: K::Key| #[trigger] d.contains(k) ==> s.contains(k),
    ensures
        is_listing::<K>(d, t),
        listed::<K>(d) == t,
    decreases s.len(),
{
    if s.len() == 0 {
        let t = Seq::<K::Key>::empty();
        assert forall|k: K::Key| #[trigger] t.contains(k) <==> d.contains(k) by {
            if d.contains(k) {
                assert(s.contains(k));
            }
        }
        lemma_listed::<K>(d, t);
        t
    } else {
        let last = s.last();
        let c = s.drop_last();
        let e = d.remove(last);
        assert forall|k: K::Key| #[trigger] e.contains(k) implies c.contains(k) by {
            assert(d.contains(k));
            let i = s.index_of(k);
            assert(c[i] == k);
        }
        let u = lemma_part_listed::<K>(c, e);
        let t = if d.contains(last) {
            u.push(last)
        } else {
            u
        };
        if d.contains(last) {
            assert forall|i: int, j: int| 0 <= i < j < t.len() implies K::before(
                #[trigger] t[i],
                #[trigger] t[j],
            ) by {
                if j < u.len() {
                    assert(K::before(u[i], u[j]));
                } else {
                    assert(u.contains(u[i]));
                    assert(e.contains(u[i]));
                    assert(c.contains(u[i]));
                    let w = c.index_of(u[i]);
                    assert(K::before(s[w], s[s.len() - 1]));
                }
            }
            assert forall|k: K::Key| #[trigger] t.contains(k) <==> d.contains(k) by {
                if t.contains(k) {
                    let w = t.index_of(k);
                    if w < u.len() {
                        assert(u[w] == k);
                        assert(u.contains(k));
                        assert(e.contains(k));
                    }
                }
                if d.contains(k) {
                    if k == last {
                        assert(t[u.len() as int] == k);
                    } else {
                        assert(e.contains(k));
                        assert(u.contains(k));
                        let w = u.index_of(k);
                        assert(t[w] == k);
                    }
                }
            }
        } else {
            assert(e =~= d);
        }
        lemma_listed::<K>(d, t);
        t
    }
}

proof fn lemma_with_one<K: OrderedKey>(s: Seq<K::Key>, k: K::Key) -> (t: Seq<K::Key>)
    requires
        increasing::<K>(s),
        !s.contains(k),
    ensures
        increasing::<K>(t),
        forall|x: K::Key| #[trigger] t.contains(x) <==> s.contains(x) || x == k,
    decreases s.len(),
{
    if s.len() == 0 {
        let t = s.push(k);
        assert forall|x: K::Key| #[trigger] t.contains(x) <==> s.contains(x) || x == k by {
            assert(t[0] == k);
        }
        t
    } else {
        let last = s.last();
        assert(s.contains(last));
        K::order(last, k, last);
        let rest = s.drop_last();
        assert forall|x: K::Key| #[trigger] s.contains(x) <==> rest.contains(x) || x == last by {
            lemma_last::<K>(s, x);
        }
        if K::before(last, k) {
            let t = s.push(k);
            assert forall|i: int, j: int| 0 <= i < j < t.len() implies K::before(
                #[trigger] t[i],
                #[trigger] t[j],
            ) by {
                if j == s.len() && i < s.len() - 1 {
                    assert(K::before(s[i], last));
                    K::order(s[i], last, k);
                }
            }
            assert forall|x: K::Key| #[trigger] t.contains(x) <==> s.contains(x) || x == k by {
                lemma_last::<K>(t, x);
                assert(t.drop_last() =~= s);
            }
            t
        } else {
            assert(!rest.contains(k));
            let u = lemma_with_one::<K>(rest, k);
            let t = u.push(last);
            assert forall|i: int, j: int| 0 <= i < j < t.len() implies K::before(
                #[trigger] t[i],
                #[trigger] t[j],
            ) by {
                if j == u.len() {
                    assert(u.contains(u[i]));
                    if u[i] != k {
                        let p = rest.index_of(u[i]);
                        assert(K::before(s[p], s[s.len() - 1]));
                    }
                } else {
                    assert(K::before(u[i], u[j]));
                }
            }
            assert forall|x: K::Key| #[trigger] t.contains(x) <==> s.contains(x) || x == k by {
                lemma_last::<K>(t, x);
                assert(t.drop_last() =~= u);
                assert(u.contains(x) <==> rest.contains(x) || x == k);
                assert(s.contains(x) <==> rest.contains(x) || x == last);
            }
            t
        }
    }
}

proof fn lemma_last<K: OrderedKey>(s: Seq<K::Key>, x: K::Key)
    requires
        s.len() > 0,
    ensures
        s.contains(x) <==> s.drop_last().contains(x) || x == s.last(),
{
    let rest = s.drop_last();
    if s.contains(x) {
        let i = s.index_of(x);
        if i < rest.len() {
            assert(rest[i] == x);
        }
    }
    if rest.contains(x) {
        assert(s[rest.index_of(x)] == x);
    }
    assert(s[s.len() - 1] == s.last());
}

/// A finite set has a listing.
pub proof fn lemma_has_listing<K: OrderedKey>(d: Set<K::Key>)
    requires
        d.finite(),
    ensures
        is_listing::<K>(d, listed::<K>(d)),
    decreases d.len(),
{
    if d.len() == 0 {
        let s = Seq::<K::Key>::empty();
        assert forall|k: K::Key| #[trigger] s.contains(k) <==> d.contains(k) by {
            if d.contains(k) {
                assert(d.remove(k).len() + 1 == d.len());
            }
        }
        assert(is_listing::<K>(d, s));
    } else {
        let k = d.choose();
        let rest = d.remove(k);
        lemma_has_listing::<K>(rest);
        let s = listed::<K>(rest);
        assert(!s.contains(k));
        let t = lemma_with_one::<K>(s, k);
        assert forall|x: K::Key| #[trigger] t.contains(x) <==> d.contains(x) by {
            assert(s.contains(x) <==> rest.contains(x));
        }
        assert(is_listing::<K>(d, t));
    }
}

/// A map that keeps its keys in order.
#[verifier::reject_recursive_types(K)]
#[verifier::reject_recursive_types(V)]
pub struct SortedMap<K: OrderedKey, V> {
    pub keys: Vec<K>,
    pub values: Vec<V>,
}

impl<K: OrderedKey, V> View for SortedMap<K, V> {
    type V = Map<K::Key, V>;

    open spec fn view(&self) -> Map<K::Key, V> {
        Map::new(
            |k: K::Key| self.order().contains(k),
            |k: K::Key| self.values@[self.order().index_of(k)],
        )
    }
}

proof fn lemma_index<K: OrderedKey>(s: Seq<K::Key>, i: int)
    requires
        increasing::<K>(s),
        0 <= i < s.len(),
    ensures
        s.contains(s[i]),
        s.index_of(s[i]) == i,
{
    let j = s.index_of(s[i]);
    assert(s.contains(s[i]));
    assert(s[j] == s[i]);
    if j != i {
        K::order(s[i], s[i], s[i]);
        if j < i {
            assert(K::before(s[j], s[i]));
        } else {
            assert(K::before(s[i], s[j]));
        }
    }
}

impl<K: OrderedKey, V> SortedMap<K, V> {
    /// The places of the keys.
    pub open spec fn order(&self) -> Seq<K::Key> {
        places(self.keys@)
    }

    /// Whether there is a value for each key, and the keys are in order.
    pub open spec fn wf(&self) -> bool {
        self.keys@.len() == self.values@.len() && increasing::<K>(self.order())
    }

    /// The value at a position belongs to the key there.
    pub proof fn lemma_at(&self, i: int)
        requires
            self.wf(),
            0 <= i < self.keys@.len(),
        ensures
            self@.contains_key(self.order()[i]),
            self@[self.order()[i]] == self.values@[i],
            self.order()[i] == self.keys@[i].key(),
    {
        lemma_index::<K>(self.order(), i);
    }

    /// A key has a position.
    pub proof fn lemma_position(&self, k: K::Key) -> (i: int)
        requires
            self.wf(),
            self@.contains_key(k),
        ensures
            0 <= i < self.keys@.len(),
            self.order()[i] == k,
            self@[k] == self.values@[i],
    {
        let i = self.order().index_of(k);
        assert(self.order().contains(k));
        i
    }

    /// The keys are listed.
    pub proof fn lemma_keys(&self)
        requires
            self.wf(),
        ensures
            listed::<K>(self@.dom()) == self.order(),
    {
        lemma_listed::<K>(self@.dom(), self.order());
    }

    /// The empty map.
    pub fn new() -> (r: Self)
        ensures
            r@ == Map::<K::Key, V>::empty(),
            r.wf(),
    {
        let r = SortedMap { keys: Vec::new(), values: Vec::new() };
        assert(r@ =~= Map::<K::Key, V>::empty());
        r
    }

    /// The number of keys that are before another.
    fn search(&self, k: &K) -> (r: usize)
        requires
            self.wf(),
        ensures
            r <= self.keys@.len(),
            forall|j: int| 0 <= j < r ==> K::before(#[trigger] self.order()[j], k.key()),
            forall|j: int|
                r <= j < self.keys@.len() ==> !K::before(#[trigger] self.order()[j], k.key()),
    {
        let mut lo: usize = 0;
        let mut hi: usize = self.keys.len();
        while lo < hi
            invariant
                self.wf(),
                lo <= hi <= self.keys@.len(),
                forall|j: int| 0 <= j < lo ==> K::before(#[trigger] self.order()[j], k.key()),
                forall|j: int|
                    hi <= j < self.keys@.len() ==> !K::before(#[trigger] self.order()[j], k.key()),
            decreases hi - lo,
        {
            let mid: usize = lo + (hi - lo) / 2;
            let ghost at = self.order()[mid as int];
            assert(at == self.keys@[mid as int].key());
            if self.keys[mid].precedes(k) {
                assert forall|j: int| 0 <= j < mid + 1 implies K::before(
                    #[trigger] self.order()[j],
                    k.key(),
                ) by {
                    if j < mid {
                        assert(K::before(self.order()[j], at));
                        K::order(self.order()[j], at, k.key());
                    }
                }
                lo = mid + 1;
            } else {
                assert forall|j: int| mid <= j < self.keys@.len() implies !K::before(
                    #[trigger] self.order()[j],
                    k.key(),
                ) by {
                    if j > mid && K::before(self.order()[j], k.key()) {
                        assert(K::before(at, self.order()[j]));
                        K::order(at, self.order()[j], k.key());
                    }
                }
                hi = mid;
            }
        }
        lo
    }

    /// The position of a key.
    fn find(&self, k: &K) -> (r: Option<usize>)
        requires
            self.wf(),
        ensures
            match r {
                Some(i) => i < self.keys@.len() && self.order()[i as int] == k.key(),
                None => !self.order().contains(k.key()),
            },
    {
        let i = self.search(k);
        if i < self.keys.len() && !k.precedes(&self.keys[i]) {
            proof {
                assert(self.order()[i as int] == self.keys@[i as int].key());
                K::order(self.order()[i as int], k.key(), k.key());
            }
            Some(i)
        } else {
            proof {
                if self.order().contains(k.key()) {
                    let j = self.order().index_of(k.key());
                    K::order(k.key(), k.key(), k.key());
                    assert(j >= i) by {
                        if j < i {
                            assert(K::before(self.order()[j], k.key()));
                        }
                    }
                    assert(K::before(k.key(), self.order()[i as int]));
                    if j > i {
                        assert(K::before(self.order()[i as int], self.order()[j]));
                        K::order(k.key(), self.order()[i as int], k.key());
                    }
                }
            }
            None
        }
    }

    /// The value under a key.
    pub fn get(&self, k: &K) -> (r: Option<&V>)
        requires
            self.wf(),
        ensures
            match r {
                Some(v) => self@.contains_key(k.key()) && *v == self@[k.key()],
                None => !self@.contains_key(k.key()),
            },
    {
        match self.find(k) {
            Some(i) => {
                proof {
                    self.lemma_at(i as int);
                }
                Some(&self.values[i])
            },
            None => None,
        }
    }

    /// Whether there is a value under a key.
    pub fn contains(&self, k: &K) -> (r: bool)
        requires
            self.wf(),
        ensures
            r == self@.contains_key(k.key()),
    {
        self.get(k).is_some()
    }

    /// Sets the value under a key.
    pub fn insert(&mut self, k: K, v: V)
        requires
            old(self).wf(),
        ensures
            final(self).wf(),
            final(self)@ == old(self)@.insert(k.key(), v),
    {
        let ghost key = k.key();
        let ghost before = *self;
        match self.find(&k) {
            Some(i) => {
                self.values.set(i, v);
                proof {
                    assert(self.order() == before.order());
                    assert forall|x: K::Key| self@.contains_key(x) implies self@[x]
                        == before@.insert(key, v)[x] by {
                        let p = self.lemma_position(x);
                        before.lemma_at(p);
                        lemma_index::<K>(self.order(), i as int);
                    }
                    lemma_index::<K>(self.order(), i as int);
                    assert(self@ =~= before@.insert(key, v));
                }
            },
            None => {
                let i = self.search(&k);
                self.keys.insert(i, k);
                self.values.insert(i, v);
                proof {
                    let o = before.order();
                    assert(self.order() =~= o.insert(i as int, key));
                    assert forall|a: int, b: int| 0 <= a < b < self.order().len() implies K::before(
                        #[trigger] self.order()[a],
                        #[trigger] self.order()[b],
                    ) by {
                        if a == i {
                            assert(self.order()[b] == o[b - 1]);
                            assert(!K::before(o[b - 1], key));
                            assert(o.contains(o[b - 1]));
                            K::order(key, o[b - 1], key);
                        } else if b == i {
                            assert(self.order()[a] == o[a]);
                        } else {
                            let a0 = if a < i { a } else { a - 1 };
                            let b0 = if b < i { b } else { b - 1 };
                            assert(K::before(o[a0], o[b0]));
                        }
                    }
                    assert forall|x: K::Key| self@.contains_key(x) <==> before@.insert(
                        key,
                        v,
                    ).contains_key(x) by {
                        if self@.contains_key(x) {
                            let p = self.lemma_position(x);
                            if p != i {
                                let q = if p < i { p } else { p - 1 };
                                before.lemma_at(q);
                            }
                        }
                        if before@.contains_key(x) {
                            let q = before.lemma_position(x);
                            let p = if q < i { q } else { q + 1 };
                            self.lemma_at(p);
                        }
                        if x == key {
                            self.lemma_at(i as int);
                        }
                    }
                    assert forall|x: K::Key| self@.contains_key(x) implies self@[x]
                        == before@.insert(key, v)[x] by {
                        let p = self.lemma_position(x);
                        if p != i {
                            let q = if p < i { p } else { p - 1 };
                            before.lemma_at(q);
                            assert(x != key);
                        }
                    }
                    assert(self@ =~= before@.insert(key, v));
                }
            },
        }
    }

    /// Removes a key and its value.
    pub fn remove(&mut self, k: &K) -> (r: Option<V>)
        requires
            old(self).wf(),
        ensures
            final(self).wf(),
            final(self)@ == old(self)@.remove(k.key()),
            match r {
                Some(v) => old(self)@.contains_key(k.key()) && v == old(self)@[k.key()],
                None => !old(self)@.contains_key(k.key()),
            },
    {
        let ghost key = k.key();
        let ghost before = *self;
        match self.find(k) {
            Some(i) => {
                let gone = self.keys.remove(i);
                let v = self.values.remove(i);
                proof {
                    let o = before.order();
                    before.lemma_at(i as int);
                    assert(self.order() =~= o.remove(i as int));
                    assert forall|a: int, b: int| 0 <= a < b < self.order().len() implies K::before(
                        #[trigger] self.order()[a],
                        #[trigger] self.order()[b],
                    ) by {
                        let a0 = if a < i { a } else { a + 1 };
                        let b0 = if b < i { b } else { b + 1 };
                        assert(K::before(o[a0], o[b0]));
                    }
                    assert forall|x: K::Key| self@.contains_key(x) <==> before@.remove(
                        key,
                    ).contains_key(x) by {
                        if self@.contains_key(x) {
                            let p = self.lemma_position(x);
                            let q = if p < i { p } else { p + 1 };
                            before.lemma_at(q);
                            if x == key {
                                lemma_index::<K>(o, i as int);
                                lemma_index::<K>(o, q);
                            }
                        }
                        if before@.remove(key).contains_key(x) {
                            let q = before.lemma_position(x);
                            let p = if q < i { q } else { q - 1 };
                            self.lemma_at(p);
                        }
                    }
                    assert forall|x: K::Key| self@.contains_key(x) implies self@[x]
                        == before@.remove(key)[x] by {
                        let p = self.lemma_position(x);
                        let q = if p < i { p } else { p + 1 };
                        before.lemma_at(q);
                    }
                    assert(self@ =~= before@.remove(key));
                }
                Some(v)
            },
            None => {
                assert(self@ =~= before@.remove(key));
                None
            },
        }
    }

    /// Whether there is no key.
    pub fn is_empty(&self) -> (r: bool)
        requires
            self.wf(),
        ensures
            r <==> forall|k: K::Key| !self@.contains_key(k),
            r == (self.order().len() == 0),
    {
        if self.keys.len() == 0 {
            true
        } else {
            proof {
                self.lemma_at(0);
            }
            false
        }
    }
}

/// A set that keeps its members in order.
#[verifier::reject_recursive_types(K)]
pub struct SortedSet<K: OrderedKey> {
    pub map: SortedMap<K, ()>,
}

impl<K: OrderedKey> View for SortedSet<K> {
    type V = Set<K::Key>;

    open spec fn view(&self) -> Set<K::Key> {
        self.map@.dom()
    }
}

impl<K: OrderedKey> SortedSet<K> {
    /// The places of the members.
    pub open spec fn order(&self) -> Seq<K::Key> {
        self.map.order()
    }

    /// Whether the members are in order.
    pub open spec fn wf(&self) -> bool {
        self.map.wf()
    }

    /// The empty set.
    pub fn new() -> (r: Self)
        ensures
            r@ == Set::<K::Key>::empty(),
            r.wf(),
    {
        let r = SortedSet { map: SortedMap::new() };
        assert(r@ =~= Set::<K::Key>::empty());
        r
    }

    /// Whether a member is in the set.
    pub fn contains(&self, k: &K) -> (r: bool)
        requires
            self.wf(),
        ensures
            r == self@.contains(k.key()),
    {
        self.map.contains(k)
    }

    /// Adds a member.
    pub fn insert(&mut self, k: K)
        requires
            old(self).wf(),
        ensures
            final(self).wf(),
            final(self)@ == old(self)@.insert(k.key()),
    {
        let ghost key = k.key();
        self.map.insert(k, ());
        assert(self@ =~= old(self)@.insert(key));
    }

    /// Removes a member.
    pub fn remove(&mut self, k: &K)
        requires
            old(self).wf(),
        ensures
            final(self).wf(),
            final(self)@ == old(self)@.remove(k.key()),
    {
        let gone = self.map.remove(k);
        assert(self@ =~= old(self)@.remove(k.key()));
    }

    /// Whether the set has no member.
    pub fn is_empty(&self) -> (r: bool)
        requires
            self.wf(),
        ensures
            r <==> forall|k: K::Key| !self@.contains(k),
    {
        let r = self.map.is_empty();
        proof {
            if !r {
                self.map.lemma_at(0);
                assert(self@.contains(self.order()[0]));
            } else {
                assert forall|k: K::Key| !self@.contains(k) by {
                    assert(!self.map@.contains_key(k));
                }
            }
        }
        r
    }

    /// A copy of the set.
    pub fn duplicate(&self) -> (r: Self)
        requires
            self.wf(),
        ensures
            r.wf(),
            r@ == self@,
            r.order() == self.order(),
    {
        let mut keys: Vec<K> = Vec::new();
        let mut values: Vec<()> = Vec::new();
        let mut i: usize = 0;
        while i < self.map.keys.len()
            invariant
                i <= self.map.keys@.len(),
                values@.len() == i,
                places(keys@) == places(self.map.keys@).take(i as int),
            decreases self.map.keys@.len() - i,
        {
            let k = self.map.keys[i].copy();
            let ghost before = keys@;
            keys.push(k);
            values.push(());
            assert(places(keys@) =~= places(before).push(k.key()));
            i += 1;
            assert(places(self.map.keys@).take(i as int) =~= places(self.map.keys@).take(
                i - 1,
            ).push(places(self.map.keys@)[i - 1]));
        }
        let r = SortedSet { map: SortedMap { keys, values } };
        proof {
            assert(places(self.map.keys@).take(self.map.keys@.len() as int) =~= places(
                self.map.keys@,
            ));
            assert(r@ =~= self@);
        }
        r
    }
}

impl OrderedKey for String {
    type Key = Seq<char>;

    open spec fn key(&self) -> Seq<char> {
        self@
    }

    open spec fn before(a: Seq<char>, b: Seq<char>) -> bool {
        text::text_lt(a, b)
    }

    proof fn order(a: Seq<char>, b: Seq<char>, c: Seq<char>) {
        text::lemma_text_lt_irreflexive(a);
        if text::text_lt(a, b) && text::text_lt(b, c) {
            text::lemma_text_lt_transitive(a, b, c);
        }
        text::lemma_text_lt_total(a, b);
    }

    fn precedes(&self, other: &String) -> (r: bool) {
        text::text_before(self.as_str(), other.as_str())
    }

    fn copy(&self) -> (r: String) {
        self.clone()
    }
}

impl OrderedKey for u64 {
    type Key = u64;

    open spec fn key(&self) -> u64 {
        *self
    }

    open spec fn before(a: u64, b: u64) -> bool {
        a < b
    }

    proof fn order(a: u64, b: u64, c: u64) {
    }

    fn precedes(&self, other: &u64) -> (r: bool) {
        *self < *other
    }

    fn copy(&self) -> (r: u64) {
        *self
    }
}

/// The values of a map in the order of their keys.
pub open spec fn in_order<K: OrderedKey, V>(m: Map<K::Key, V>) -> Seq<V> {
    listed::<K>(m.dom()).map_values(|k: K::Key| m[k])
}

impl<K: OrderedKey, V> SortedMap<K, V> {
    /// The values stand in the order of their keys.
    pub proof fn lemma_values(&self)
        requires
            self.wf(),
        ensures
            self.values@ == in_order::<K, V>(self@),
    {
        self.lemma_keys();
        assert forall|i: int| 0 <= i < self.values@.len() implies self.values@[i] == in_order::<
            K,
            V,
        >(self@)[i] by {
            self.lemma_at(i);
        }
        assert(self.values@ =~= in_order::<K, V>(self@));
    }

    /// The values in the order of their keys.
    pub fn into_values(self) -> (r: Vec<V>)
        requires
            self.wf(),
        ensures
            r@ == in_order::<K, V>(self@),
    {
        proof {
            self.lemma_values();
        }
        self.values
    }
}

} // verus!
