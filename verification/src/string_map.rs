//! A map from text to text that keeps its entries sorted by key.
use crate::text;
use vstd::prelude::*;

verus! {

/// The value under a key in a sequence of entries.
pub open spec fn lookup(s: Seq<(Seq<char>, Seq<char>)>, k: Seq<char>) -> Option<Seq<char>>
    decreases s.len(),
{
    if s.len() == 0 {
        None
    } else if s.last().0 == k {
        Some(s.last().1)
    } else {
        lookup(s.drop_last(), k)
    }
}

/// The entries with the value under `k` set to `v`.
pub open spec fn put(
    s: Seq<(Seq<char>, Seq<char>)>,
    k: Seq<char>,
    v: Seq<char>,
) -> Seq<(Seq<char>, Seq<char>)>
    decreases s.len(),
{
    if s.len() > 0 && s.last().0 == k {
        s.drop_last().push((k, v))
    } else if s.len() > 0 && text::text_lt(k, s.last().0) {
        put(s.drop_last(), k, v).push(s.last())
    } else {
        s.push((k, v))
    }
}

/// Whether the keys stand in strictly increasing order.
pub open spec fn keys_sorted(s: Seq<(Seq<char>, Seq<char>)>) -> bool {
    forall|i: int, j: int|
        0 <= i < j < s.len() ==> text::text_lt((#[trigger] s[i]).0, (#[trigger] s[j]).0)
}

/// The key and value of an entry as texts.
pub open spec fn pair_view(p: (String, String)) -> (Seq<char>, Seq<char>) {
    (p.0@, p.1@)
}

/// A map from text to text, sorted by key.
#[derive(Debug)]
pub struct StringMap {
    pub entries: Vec<(String, String)>,
}

impl View for StringMap {
    type V = Seq<(Seq<char>, Seq<char>)>;

    open spec fn view(&self) -> Seq<(Seq<char>, Seq<char>)> {
        self.entries@.map_values(|p: (String, String)| pair_view(p))
    }
}

/// Setting a key in sorted entries keeps them sorted, sets that key, and leaves
/// every other key as it was.
pub proof fn lemma_put(s: Seq<(Seq<char>, Seq<char>)>, k: Seq<char>, v: Seq<char>)
    requires
        keys_sorted(s),
    ensures
        keys_sorted(put(s, k, v)),
        lookup(put(s, k, v), k) == Some(v),
        forall|q: Seq<char>| q != k ==> #[trigger] lookup(put(s, k, v), q) == lookup(s, q),
        forall|i: int|
            0 <= i < put(s, k, v).len() ==> (#[trigger] put(s, k, v)[i]).0 == k || exists|j: int|
                0 <= j < s.len() && s[j] == put(s, k, v)[i],
    decreases s.len(),
{
    let r = put(s, k, v);
    if s.len() > 0 && s.last().0 == k {
        let d = s.drop_last();
        assert(r.drop_last() =~= d);
        assert forall|i: int| 0 <= i < r.len() implies (#[trigger] r[i]).0 == k || exists|j: int|
            0 <= j < s.len() && s[j] == r[i] by {
            if i < d.len() {
                assert(s[i] == r[i]);
            }
        }
        assert forall|i: int, j: int| 0 <= i < j < r.len() implies text::text_lt(
            (#[trigger] r[i]).0,
            (#[trigger] r[j]).0,
        ) by {
            assert(text::text_lt(s[i].0, s[j].0));
        }
    } else if s.len() > 0 && text::text_lt(k, s.last().0) {
        let d = s.drop_last();
        assert forall|i: int, j: int| 0 <= i < j < d.len() implies text::text_lt(
            (#[trigger] d[i]).0,
            (#[trigger] d[j]).0,
        ) by {
            assert(text::text_lt(s[i].0, s[j].0));
        }
        lemma_put(d, k, v);
        let q = put(d, k, v);
        assert(r.drop_last() =~= q);
        assert forall|x: Seq<char>| x != k implies #[trigger] lookup(r, x) == lookup(s, x) by {
            assert(lookup(q, x) == lookup(d, x));
        }
        assert forall|i: int| 0 <= i < r.len() implies (#[trigger] r[i]).0 == k || exists|j: int|
            0 <= j < s.len() && s[j] == r[i] by {
            if i < q.len() {
                assert(r[i] == q[i]);
                if q[i].0 != k {
                    let j = choose|j: int| 0 <= j < d.len() && d[j] == q[i];
                    assert(s[j] == r[i]);
                }
            } else {
                assert(s[s.len() - 1] == r[i]);
            }
        }
        assert forall|i: int, j: int| 0 <= i < j < r.len() implies text::text_lt(
            (#[trigger] r[i]).0,
            (#[trigger] r[j]).0,
        ) by {
            if j == r.len() - 1 {
                if q[i].0 != k {
                    let w = choose|w: int| 0 <= w < d.len() && d[w] == q[i];
                    assert(text::text_lt(s[w].0, s[s.len() - 1].0));
                }
            } else {
                assert(text::text_lt(q[i].0, q[j].0));
            }
        }
    } else {
        assert(r.drop_last() =~= s);
        assert forall|i: int| 0 <= i < r.len() implies (#[trigger] r[i]).0 == k || exists|j: int|
            0 <= j < s.len() && s[j] == r[i] by {
            if i < s.len() {
                assert(s[i] == r[i]);
            }
        }
        assert forall|i: int, j: int| 0 <= i < j < r.len() implies text::text_lt(
            (#[trigger] r[i]).0,
            (#[trigger] r[j]).0,
        ) by {
            if j == r.len() - 1 {
                text::lemma_text_lt_total(k, s.last().0);
                if i < s.len() - 1 {
                    assert(text::text_lt(s[i].0, s[s.len() - 1].0));
                    text::lemma_text_lt_transitive(s[i].0, s.last().0, k);
                }
            } else {
                assert(text::text_lt(s[i].0, s[j].0));
            }
        }
    }
}

proof fn lemma_put_at(s: Seq<(Seq<char>, Seq<char>)>, k: Seq<char>, v: Seq<char>, i: int)
    requires
        0 <= i <= s.len(),
        forall|j: int| i <= j < s.len() ==> text::text_lt(k, (#[trigger] s[j]).0),
        i > 0 ==> s[i - 1].0 == k || !text::text_lt(k, s[i - 1].0),
    ensures
        i > 0 && s[i - 1].0 == k ==> put(s, k, v) == s.update(i - 1, (k, v)),
        !(i > 0 && s[i - 1].0 == k) ==> put(s, k, v) == s.insert(i, (k, v)),
    decreases s.len(),
{
    if i == s.len() {
        if i > 0 && s[i - 1].0 == k {
            assert(put(s, k, v) =~= s.update(i - 1, (k, v)));
        } else {
            assert(put(s, k, v) =~= s.insert(i, (k, v)));
        }
    } else {
        assert(text::text_lt(k, s[s.len() - 1].0));
        text::lemma_text_lt_irreflexive(k);
        let d = s.drop_last();
        lemma_put_at(d, k, v, i);
        if i > 0 && s[i - 1].0 == k {
            assert(d.update(i - 1, (k, v)).push(s.last()) =~= s.update(i - 1, (k, v)));
        } else {
            assert(d.insert(i, (k, v)).push(s.last()) =~= s.insert(i, (k, v)));
        }
    }
}

proof fn lemma_lookup_none(s: Seq<(Seq<char>, Seq<char>)>, k: Seq<char>)
    requires
        forall|j: int| 0 <= j < s.len() ==> (#[trigger] s[j]).0 != k,
    ensures
        lookup(s, k) is None,
    decreases s.len(),
{
    if s.len() > 0 {
        assert(s[s.len() - 1].0 != k);
        lemma_lookup_none(s.drop_last(), k);
    }
}

proof fn lemma_lookup_at(s: Seq<(Seq<char>, Seq<char>)>, k: Seq<char>, i: int)
    requires
        0 <= i < s.len(),
        s[i].0 == k,
        forall|j: int| i < j < s.len() ==> (#[trigger] s[j]).0 != k,
    ensures
        lookup(s, k) == Some(s[i].1),
    decreases s.len(),
{
    if i < s.len() - 1 {
        assert(s[s.len() - 1].0 != k);
        lemma_lookup_at(s.drop_last(), k, i);
    }
}

impl StringMap {
    /// Whether the keys stand in strictly increasing order.
    pub open spec fn wf(&self) -> bool {
        keys_sorted(self@)
    }

    /// An empty map.
    pub fn new() -> (r: Self)
        ensures
            r@ == Seq::<(Seq<char>, Seq<char>)>::empty(),
            r.wf(),
    {
        let r = StringMap { entries: Vec::new() };
        assert(r@ =~= Seq::empty());
        r
    }

    /// A map of one entry.
    pub fn of(k: &str, v: &str) -> (r: Self)
        ensures
            r@ == seq![(k@, v@)],
            r.wf(),
    {
        let mut entries: Vec<(String, String)> = Vec::new();
        entries.push((k.to_owned(), v.to_owned()));
        let r = StringMap { entries };
        assert(r@ =~= seq![(k@, v@)]);
        r
    }

    /// Whether the map has no entry.
    pub fn is_empty(&self) -> (r: bool)
        ensures
            r == (self@.len() == 0),
    {
        self.entries.len() == 0
    }

    /// Removes every entry.
    pub fn clear(&mut self)
        ensures
            final(self)@ == Seq::<(Seq<char>, Seq<char>)>::empty(),
            final(self).wf(),
    {
        self.entries.clear();
        assert(self@ =~= Seq::empty());
    }

    /// The value under a key.
    pub fn get(&self, k: &str) -> (r: Option<String>)
        ensures
            text::opt_text(r) == lookup(self@, k@),
    {
        let mut i: usize = self.entries.len();
        while i > 0
            invariant
                i <= self.entries@.len(),
                forall|j: int| i <= j < self@.len() ==> (#[trigger] self@[j]).0 != k@,
            decreases i,
        {
            assert(self@[i - 1] == pair_view(self.entries@[i - 1]));
            if text::str_eq(self.entries[i - 1].0.as_str(), k) {
                proof {
                    lemma_lookup_at(self@, k@, i - 1);
                }
                return Some(self.entries[i - 1].1.clone());
            }
            i -= 1;
        }
        proof {
            lemma_lookup_none(self@, k@);
        }
        None
    }

    /// Whether a key holds exactly the given value.
    pub fn holds(&self, k: &str, v: &str) -> (r: bool)
        ensures
            r == (lookup(self@, k@) == Some(v@)),
    {
        text::opt_is(&self.get(k), v)
    }

    /// Sets the value under a key.
    pub fn insert(&mut self, k: &str, v: &str)
        ensures
            final(self)@ == put(old(self)@, k@, v@),
            old(self).wf() ==> final(self).wf(),
    {
        let mut i: usize = self.entries.len();
        while i > 0 && text::text_before(k, self.entries[i - 1].0.as_str())
            invariant
                i <= self.entries@.len(),
                self.entries@ == old(self).entries@,
                forall|j: int| i <= j < self@.len() ==> text::text_lt(k@, (#[trigger] self@[j]).0),
            decreases i,
        {
            assert(self@[i - 1] == pair_view(self.entries@[i - 1]));
            i -= 1;
        }
        let ghost s = self@;
        proof {
            if i > 0 {
                assert(self@[i - 1] == pair_view(self.entries@[i - 1]));
            }
            lemma_put_at(s, k@, v@, i as int);
            if keys_sorted(s) {
                lemma_put(s, k@, v@);
            }
        }
        if i > 0 && text::str_eq(self.entries[i - 1].0.as_str(), k) {
            let e = (k.to_owned(), v.to_owned());
            self.entries.set(i - 1, e);
            assert(self@ =~= s.update(i - 1, (k@, v@)));
        } else {
            let e = (k.to_owned(), v.to_owned());
            self.entries.insert(i, e);
            assert(self@ =~= s.insert(i as int, (k@, v@)));
        }
    }

    /// A copy of the map.
    pub fn duplicate(&self) -> (r: Self)
        ensures
            r@ == self@,
            self.wf() ==> r.wf(),
    {
        let mut entries: Vec<(String, String)> = Vec::new();
        let mut i: usize = 0;
        while i < self.entries.len()
            invariant
                i <= self.entries@.len(),
                entries@ == self.entries@.take(i as int),
            decreases self.entries@.len() - i,
        {
            let e = (self.entries[i].0.clone(), self.entries[i].1.clone());
            entries.push(e);
            i += 1;
            assert(self.entries@.take(i as int) =~= self.entries@.take(i - 1).push(
                self.entries@[i - 1],
            ));
        }
        assert(self.entries@.take(self.entries@.len() as int) =~= self.entries@);
        StringMap { entries }
    }
}

} // verus!
