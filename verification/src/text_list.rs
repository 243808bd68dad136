//! Lists of texts: sorting, joining and membership.
use crate::text;
use vstd::prelude::*;
use vstd::string::*;

verus! {

/// `s` with `x` inserted behind every element that does not stand after it.
pub open spec fn ordered_insert(s: Seq<Seq<char>>, x: Seq<char>) -> Seq<Seq<char>>
    decreases s.len(),
{
    if s.len() > 0 && text::text_lt(x, s.last()) {
        ordered_insert(s.drop_last(), x).push(s.last())
    } else {
        s.push(x)
    }
}

/// The elements of `s` in lexicographic order.
pub open spec fn sorted_texts(s: Seq<Seq<char>>) -> Seq<Seq<char>>
    decreases s.len(),
{
    if s.len() == 0 {
        s
    } else {
        ordered_insert(sorted_texts(s.drop_last()), s.last())
    }
}

/// Whether every element stands before or equals those behind it.
pub open spec fn is_sorted(s: Seq<Seq<char>>) -> bool {
    forall|i: int, j: int| 0 <= i <= j < s.len() ==> text::text_le(#[trigger] s[i], #[trigger] s[j])
}

proof fn lemma_insert_at(s: Seq<Seq<char>>, x: Seq<char>, k: int)
    requires
        0 <= k <= s.len(),
        forall|j: int| k <= j < s.len() ==> text::text_lt(x, #[trigger] s[j]),
        k > 0 ==> !text::text_lt(x, s[k - 1]),
    ensures
        ordered_insert(s, x) == s.insert(k, x),
    decreases s.len(),
{
    if k == s.len() {
        assert(s.insert(k, x) =~= s.push(x));
    } else {
        lemma_insert_at(s.drop_last(), x, k);
        assert(s.drop_last().insert(k, x).push(s.last()) =~= s.insert(k, x));
    }
}

proof fn lemma_ordered_insert(s: Seq<Seq<char>>, x: Seq<char>)
    requires
        is_sorted(s),
    ensures
        is_sorted(ordered_insert(s, x)),
        ordered_insert(s, x).len() == s.len() + 1,
        ordered_insert(s, x).to_multiset() == s.to_multiset().insert(x),
        forall|y: Seq<char>| #[trigger]
            ordered_insert(s, x).contains(y) ==> s.contains(y) || y == x,
    decreases s.len(),
{
    broadcast use vstd::seq_lib::group_to_multiset_ensures;

    let r = ordered_insert(s, x);
    if s.len() > 0 && text::text_lt(x, s.last()) {
        let d = s.drop_last();
        lemma_ordered_insert(d, x);
        let q = ordered_insert(d, x);
        assert(s =~= d.push(s.last()));
        assert forall|i: int, j: int| 0 <= i <= j < r.len() implies text::text_le(
            #[trigger] r[i],
            #[trigger] r[j],
        ) by {
            if j == r.len() - 1 {
                if i < j {
                    assert(q.contains(q[i]));
                    if q[i] == x {
                        text::lemma_text_lt_total(x, s.last());
                    } else {
                        let w = choose|w: int| 0 <= w < d.len() && d[w] == q[i];
                        assert(text::text_le(s[w], s[s.len() - 1]));
                    }
                } else {
                    text::lemma_text_lt_irreflexive(r[i]);
                }
            } else {
                assert(text::text_le(q[i], q[j]));
            }
        }
        assert(r.to_multiset() =~= q.to_multiset().insert(s.last()));
        assert(s.to_multiset() =~= d.to_multiset().insert(s.last()));
        assert forall|y: Seq<char>| #[trigger] r.contains(y) implies s.contains(y) || y == x by {
            let w = choose|w: int| 0 <= w < r.len() && r[w] == y;
            if w < q.len() {
                assert(q.contains(y));
                if d.contains(y) {
                    let z = choose|z: int| 0 <= z < d.len() && d[z] == y;
                    assert(s[z] == y);
                }
            } else {
                assert(s[s.len() - 1] == y);
            }
        }
    } else {
        assert forall|i: int, j: int| 0 <= i <= j < r.len() implies text::text_le(
            #[trigger] r[i],
            #[trigger] r[j],
        ) by {
            if j == r.len() - 1 {
                if i < j {
                    assert(text::text_le(s[i], s[s.len() - 1]));
                    text::lemma_text_le_transitive(s[i], s.last(), x);
                } else {
                    text::lemma_text_lt_irreflexive(r[i]);
                }
            } else {
                assert(text::text_le(s[i], s[j]));
            }
        }
        assert forall|y: Seq<char>| #[trigger] r.contains(y) implies s.contains(y) || y == x by {
            let w = choose|w: int| 0 <= w < r.len() && r[w] == y;
            if w < s.len() {
                assert(s[w] == y);
            }
        }
    }
}

/// Sorting gives the same elements in order.
pub proof fn lemma_sorted_texts(s: Seq<Seq<char>>)
    ensures
        is_sorted(sorted_texts(s)),
        sorted_texts(s).to_multiset() == s.to_multiset(),
        sorted_texts(s).len() == s.len(),
    decreases s.len(),
{
    broadcast use vstd::seq_lib::group_to_multiset_ensures;

    if s.len() > 0 {
        lemma_sorted_texts(s.drop_last());
        lemma_ordered_insert(sorted_texts(s.drop_last()), s.last());
        assert(s =~= s.drop_last().push(s.last()));
    }
}

/// Inserts a text into a sorted list.
fn insert_ordered(v: &mut Vec<String>, x: String)
    ensures
        text::texts(final(v)@) == ordered_insert(text::texts(old(v)@), x@),
{
    let mut k: usize = v.len();
    while k > 0 && text::text_before(x.as_str(), v[k - 1].as_str())
        invariant
            k <= v@.len(),
            v@ == old(v)@,
            forall|j: int| k <= j < v@.len() ==> text::text_lt(x@, #[trigger] text::texts(v@)[j]),
        decreases k,
    {
        assert(text::texts(v@)[k - 1] == v@[k - 1]@);
        k -= 1;
    }
    proof {
        if k > 0 {
            assert(text::texts(v@)[k - 1] == v@[k - 1]@);
        }
        lemma_insert_at(text::texts(v@), x@, k as int);
        assert(text::texts(v@.insert(k as int, x)) =~= text::texts(v@).insert(k as int, x@));
    }
    v.insert(k, x);
}

/// Sorts a list of texts.
pub fn sort_texts(v: &Vec<String>) -> (r: Vec<String>)
    ensures
        text::texts(r@) == sorted_texts(text::texts(v@)),
{
    let mut r: Vec<String> = Vec::new();
    let mut i: usize = 0;
    assert(text::texts(v@).take(0) =~= Seq::<Seq<char>>::empty());
    assert(text::texts(r@) =~= Seq::<Seq<char>>::empty());
    while i < v.len()
        invariant
            i <= v@.len(),
            text::texts(r@) == sorted_texts(text::texts(v@).take(i as int)),
        decreases v@.len() - i,
    {
        let ghost t = text::texts(v@);
        insert_ordered(&mut r, v[i].clone());
        proof {
            assert(t.take(i + 1).drop_last() =~= t.take(i as int));
            assert(t.take(i + 1).last() == t[i as int]);
            assert(t[i as int] == v@[i as int]@);
        }
        i += 1;
    }
    assert(text::texts(v@).take(v@.len() as int) =~= text::texts(v@));
    r
}

/// The elements of `s` with `sep` between neighbours.
pub open spec fn joined(s: Seq<Seq<char>>, sep: Seq<char>) -> Seq<char>
    decreases s.len(),
{
    if s.len() == 0 {
        Seq::empty()
    } else if s.len() == 1 {
        s[0]
    } else {
        joined(s.drop_last(), sep) + sep + s.last()
    }
}

/// Joins a list of texts with a separator.
pub fn join(v: &Vec<String>, sep: &str) -> (r: String)
    ensures
        r@ == joined(text::texts(v@), sep@),
{
    if v.len() == 0 {
        return String::new();
    }
    let mut r = v[0].clone();
    let mut i: usize = 1;
    let ghost t = text::texts(v@);
    assert(t.take(1)[0] == v@[0]@);
    while i < v.len()
        invariant
            1 <= i <= v@.len(),
            t == text::texts(v@),
            r@ == joined(t.take(i as int), sep@),
        decreases v@.len() - i,
    {
        r.append(sep);
        r.append(v[i].as_str());
        proof {
            assert(t.take(i + 1).drop_last() =~= t.take(i as int));
            assert(t.take(i + 1).last() == t[i as int]);
            assert(t[i as int] == v@[i as int]@);
        }
        i += 1;
    }
    assert(t.take(v@.len() as int) =~= t);
    r
}

/// Whether a list holds a text.
pub fn contains(v: &Vec<String>, x: &str) -> (r: bool)
    ensures
        r == text::texts(v@).contains(x@),
{
    let mut i: usize = 0;
    while i < v.len()
        invariant
            i <= v@.len(),
            forall|j: int| 0 <= j < i ==> #[trigger] text::texts(v@)[j] != x@,
        decreases v@.len() - i,
    {
        assert(text::texts(v@)[i as int] == v@[i as int]@);
        if text::str_eq(v[i].as_str(), x) {
            return true;
        }
        i += 1;
    }
    false
}

/// The parts of a text between the occurrences of a character.
pub open spec fn parts(s: Seq<char>, c: char) -> Seq<Seq<char>>
    decreases s.len(),
{
    if s.len() == 0 {
        Seq::<Seq<char>>::empty().push(Seq::empty())
    } else {
        let before = parts(s.drop_last(), c);
        if s.last() == c {
            before.push(Seq::empty())
        } else {
            before.drop_last().push(before.last().push(s.last()))
        }
    }
}

/// Splits a text at every occurrence of a character.
pub fn split(s: &str, c: char) -> (r: Vec<String>)
    ensures
        text::texts(r@) == parts(s@, c),
{
    let v = text::chars_of(s);
    let mut r: Vec<String> = Vec::new();
    let mut part = String::new();
    let mut i: usize = 0;
    proof {
        assert(text::texts(r@).push(part@) =~= parts(v@.take(0), c));
    }
    while i < v.len()
        invariant
            i <= v@.len(),
            text::texts(r@).push(part@) == parts(v@.take(i as int), c),
        decreases v@.len() - i,
    {
        let ghost before = text::texts(r@).push(part@);
        let ghost had = text::texts(r@);
        let ghost was = part@;
        proof {
            assert(v@.take(i + 1).drop_last() =~= v@.take(i as int));
            assert(v@.take(i + 1).last() == v@[i as int]);
            assert(before.drop_last() =~= had);
            assert(before.last() == was);
        }
        if v[i] == c {
            r.push(part);
            part = String::new();
            proof {
                assert(text::texts(r@) =~= had.push(was));
                assert(part@ =~= Seq::<char>::empty());
            }
        } else {
            part.push(v[i]);
        }
        i += 1;
    }
    let ghost had = text::texts(r@);
    let ghost was = part@;
    r.push(part);
    proof {
        assert(text::texts(r@) =~= had.push(was));
        assert(v@.take(i as int) =~= v@);
    }
    r
}

/// The parts of a text hold the separator nowhere, and joined by it they make
/// the text again.
pub proof fn law_parts_join_to_the_text(s: &str, c: char, sep: &str, v: Vec<String>, r: String)
    requires
        call_ensures(split, (s, c), v),
        sep@ == seq![c],
        call_ensures(join, (&v, sep), r),
    ensures
        r@ == s@,
        v@.len() > 0,
        forall|i: int| 0 <= i < v@.len() ==> !(#[trigger] v@[i])@.contains(c),
{
    lemma_parts(s@, c);
    assert forall|i: int| 0 <= i < v@.len() implies !(#[trigger] v@[i])@.contains(c) by {
        assert(text::texts(v@)[i] == v@[i]@);
    }
}

proof fn lemma_parts(s: Seq<char>, c: char)
    ensures
        joined(parts(s, c), seq![c]) == s,
        parts(s, c).len() > 0,
        forall|i: int| 0 <= i < parts(s, c).len() ==> !(#[trigger] parts(s, c)[i]).contains(c),
    decreases s.len(),
{
    let ps = parts(s, c);
    if s.len() == 0 {
        assert(ps[0] =~= Seq::<char>::empty());
        assert(joined(ps, seq![c]) =~= s);
    } else {
        let t = s.drop_last();
        let before = parts(t, c);
        lemma_parts(t, c);
        if s.last() == c {
            assert(ps.drop_last() =~= before);
            assert(joined(ps, seq![c]) =~= t + seq![c] + Seq::<char>::empty());
            assert(joined(ps, seq![c]) =~= s);
        } else {
            assert(ps.drop_last() =~= before.drop_last());
            assert(joined(ps, seq![c]) =~= joined(before, seq![c]).push(s.last()));
            let l = before.last();
            assert(!l.contains(c));
            let m = l.push(s.last());
            if m.contains(c) {
                let k = choose|k: int| 0 <= k < m.len() && m[k] == c;
                assert(l[k] == c);
                assert(l.contains(c));
            }
            assert(joined(ps, seq![c]) =~= s);
        }
    }
}

/// Sorted texts are the texts that were given, each as often, in their order.
pub proof fn law_sorted_texts_stand_in_their_order(v: &Vec<String>, r: Vec<String>)
    requires
        call_ensures(sort_texts, (v,), r),
    ensures
        text::texts(r@).to_multiset() == text::texts(v@).to_multiset(),
        forall|i: int, j: int|
            0 <= i < j < r@.len() ==> !text::text_lt((#[trigger] r@[j])@, (#[trigger] r@[i])@),
{
    lemma_sorted_texts(text::texts(v@));
    assert forall|i: int, j: int|
        0 <= i < j < r@.len() implies !text::text_lt(
        (#[trigger] r@[j])@,
        (#[trigger] r@[i])@,
    ) by {
        assert(text::texts(r@)[i] == r@[i]@);
        assert(text::texts(r@)[j] == r@[j]@);
    }
}

} // verus!
