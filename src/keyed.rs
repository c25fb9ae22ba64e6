//! Entry lists kept strictly ordered by key, so that each key occurs once
//! and a walk over the list visits the keys in byte-wise order.

use vstd::prelude::*;
use vstd::map::*;
use crate::text::{key_lt, lemma_key_lt_irreflexive, lemma_key_lt_total, lemma_key_lt_transitive, str_eq, str_lt};

verus! {

/// Keys strictly increase along the list.
pub open spec fn keys_sorted<V>(s: Seq<(String, V)>) -> bool {
    forall|i: int, j: int| 0 <= i < j < s.len() ==> key_lt(#[trigger] s[i].0@, #[trigger] s[j].0@)
}

/// Some entry of `s` has key `k`.
pub open spec fn has_key<V>(s: Seq<(String, V)>, k: Seq<char>) -> bool {
    exists|i: int| 0 <= i < s.len() && #[trigger] s[i].0@ == k
}

/// The position of an entry with key `k`.
pub open spec fn index_of<V>(s: Seq<(String, V)>, k: Seq<char>) -> int {
    choose|i: int| 0 <= i < s.len() && #[trigger] s[i].0@ == k
}

/// What the list maps each of its keys to.
pub open spec fn entry_map<V: DeepView>(s: Seq<(String, V)>) -> Map<Seq<char>, V::V> {
    Map::new(|k: Seq<char>| has_key(s, k), |k: Seq<char>| s[index_of(s, k)].1.deep_view())
}

pub proof fn lemma_index_of<V: DeepView>(s: Seq<(String, V)>, i: int)
    requires
        keys_sorted(s),
        0 <= i < s.len(),
    ensures
        has_key(s, s[i].0@),
        index_of(s, s[i].0@) == i,
        entry_map(s).contains_key(s[i].0@),
        entry_map(s)[s[i].0@] == s[i].1.deep_view(),
{
    let k = s[i].0@;
    assert(has_key(s, k));
    let j = index_of(s, k);
    if j < i {
        assert(key_lt(s[j].0@, s[i].0@));
        lemma_key_lt_irreflexive(k);
    } else if i < j {
        assert(key_lt(s[i].0@, s[j].0@));
        lemma_key_lt_irreflexive(k);
    }
}

/// Where key `k` stands or belongs in `s`: entries before `p` have smaller
/// keys, entries from `p` on (but one equal to `k` at `p`) have greater keys.
pub open spec fn splits_at<V>(s: Seq<(String, V)>, k: Seq<char>, p: int) -> bool {
    &&& 0 <= p <= s.len()
    &&& forall|i: int| 0 <= i < p ==> key_lt(#[trigger] s[i].0@, k)
    &&& forall|i: int| p < i < s.len() ==> key_lt(k, #[trigger] s[i].0@)
}

proof fn lemma_insert_new<V: DeepView>(s: Seq<(String, V)>, p: int, e: (String, V))
    requires
        keys_sorted(s),
        splits_at(s, e.0@, p),
        p < s.len() ==> key_lt(e.0@, s[p].0@),
    ensures
        keys_sorted(s.insert(p, e)),
        entry_map(s.insert(p, e)) == entry_map(s).insert(e.0@, e.1.deep_view()),
{
    let t = s.insert(p, e);
    let k = e.0@;
    assert forall|i: int, j: int| 0 <= i < j < t.len() implies key_lt(#[trigger] t[i].0@, #[trigger] t[j].0@) by {
        if j < p {
            assert(t[i] == s[i] && t[j] == s[j]);
        } else if i < p && j == p {
        } else if i < p && j > p {
            assert(t[j] == s[j - 1]);
        } else if i == p {
            assert(t[j] == s[j - 1]);
            if j - 1 > p {
                assert(key_lt(k, s[j - 1].0@));
            }
        } else {
            assert(t[i] == s[i - 1] && t[j] == s[j - 1]);
        }
    }
    lemma_index_of(t, p);
    assert forall|q: Seq<char>| #[trigger] has_key(t, q) <==> (has_key(s, q) || q == k) by {
        if has_key(t, q) {
            let j = choose|j: int| 0 <= j < t.len() && #[trigger] t[j].0@ == q;
            if j < p {
                assert(s[j].0@ == q);
            } else if j > p {
                assert(s[j - 1].0@ == q);
            }
        }
        if has_key(s, q) {
            let j = choose|j: int| 0 <= j < s.len() && #[trigger] s[j].0@ == q;
            if j < p {
                assert(t[j].0@ == q);
            } else {
                assert(t[j + 1].0@ == q);
            }
        }
    }
    assert forall|q: Seq<char>| has_key(s, q) && q != k implies #[trigger] entry_map(t)[q] == entry_map(s)[q] by {
        let j = choose|j: int| 0 <= j < s.len() && #[trigger] s[j].0@ == q;
        lemma_index_of(s, j);
        if j < p {
            lemma_index_of(t, j);
        } else {
            assert(t[j + 1] == s[j]);
            lemma_index_of(t, j + 1);
        }
    }
    assert_maps_equal!(entry_map(t), entry_map(s).insert(k, e.1.deep_view()));
}

proof fn lemma_replace<V: DeepView>(s: Seq<(String, V)>, p: int, e: (String, V))
    requires
        keys_sorted(s),
        0 <= p < s.len(),
        s[p].0@ == e.0@,
    ensures
        keys_sorted(s.update(p, e)),
        entry_map(s.update(p, e)) == entry_map(s).insert(e.0@, e.1.deep_view()),
{
    let t = s.update(p, e);
    let k = e.0@;
    assert forall|i: int, j: int| 0 <= i < j < t.len() implies key_lt(#[trigger] t[i].0@, #[trigger] t[j].0@) by {
        assert(key_lt(s[i].0@, s[j].0@));
    }
    lemma_index_of(t, p);
    assert forall|q: Seq<char>| #[trigger] has_key(t, q) <==> has_key(s, q) by {
        if has_key(t, q) {
            let j = choose|j: int| 0 <= j < t.len() && #[trigger] t[j].0@ == q;
            assert(s[j].0@ == q);
        }
        if has_key(s, q) {
            let j = choose|j: int| 0 <= j < s.len() && #[trigger] s[j].0@ == q;
            assert(t[j].0@ == q);
        }
    }
    assert forall|q: Seq<char>| has_key(s, q) && q != k implies #[trigger] entry_map(t)[q] == entry_map(s)[q] by {
        let j = choose|j: int| 0 <= j < s.len() && #[trigger] s[j].0@ == q;
        lemma_index_of(s, j);
        lemma_index_of(t, j);
    }
    lemma_index_of(s, p);
    assert_maps_equal!(entry_map(t), entry_map(s).insert(k, e.1.deep_view()));
}

proof fn lemma_remove<V: DeepView>(s: Seq<(String, V)>, p: int)
    requires
        keys_sorted(s),
        0 <= p < s.len(),
    ensures
        keys_sorted(s.remove(p)),
        entry_map(s.remove(p)) == entry_map(s).remove(s[p].0@),
{
    let t = s.remove(p);
    let k = s[p].0@;
    assert forall|i: int, j: int| 0 <= i < j < t.len() implies key_lt(#[trigger] t[i].0@, #[trigger] t[j].0@) by {
        let i2 = if i < p { i } else { i + 1 };
        let j2 = if j < p { j } else { j + 1 };
        assert(t[i] == s[i2] && t[j] == s[j2]);
        assert(key_lt(s[i2].0@, s[j2].0@));
    }
    assert forall|q: Seq<char>| #[trigger] has_key(t, q) <==> (has_key(s, q) && q != k) by {
        if has_key(t, q) {
            let j = choose|j: int| 0 <= j < t.len() && #[trigger] t[j].0@ == q;
            let j2 = if j < p { j } else { j + 1 };
            assert(s[j2].0@ == q);
            lemma_index_of(s, j2);
            lemma_index_of(s, p);
        }
        if has_key(s, q) && q != k {
            let j = choose|j: int| 0 <= j < s.len() && #[trigger] s[j].0@ == q;
            if j < p {
                assert(t[j].0@ == q);
            } else {
                assert(t[j - 1].0@ == q);
            }
        }
    }
    assert forall|q: Seq<char>| has_key(t, q) implies #[trigger] entry_map(t)[q] == entry_map(s)[q] by {
        let j = choose|j: int| 0 <= j < t.len() && #[trigger] t[j].0@ == q;
        let j2 = if j < p { j } else { j + 1 };
        assert(t[j] == s[j2]);
        lemma_index_of(t, j);
        lemma_index_of(s, j2);
    }
    assert_maps_equal!(entry_map(t), entry_map(s).remove(k));
}

/// The place of key `k` in `v`, and whether an entry with that key is there.
pub fn locate<V: DeepView>(v: &Vec<(String, V)>, k: &str) -> (r: (usize, bool))
    requires
        keys_sorted(v@),
    ensures
        splits_at(v@, k@, r.0 as int),
        r.1 == has_key(v@, k@),
        r.1 ==> r.0 < v@.len() && v@[r.0 as int].0@ == k@,
        !r.1 && r.0 < v@.len() ==> key_lt(k@, v@[r.0 as int].0@),
{
    let mut i: usize = 0;
    while i < v.len() && str_lt(v[i].0.as_str(), k)
        invariant
            keys_sorted(v@),
            i <= v@.len(),
            forall|j: int| 0 <= j < i ==> key_lt(#[trigger] v@[j].0@, k@),
        decreases v@.len() - i,
    {
        i = i + 1;
    }
    let found = i < v.len() && str_eq(v[i].0.as_str(), k);
    proof {
        if i < v@.len() {
            if !found {
                lemma_key_lt_total(k@, v@[i as int].0@);
            }
            assert forall|j: int| i < j < v@.len() implies key_lt(k@, #[trigger] v@[j].0@) by {
                assert(key_lt(v@[i as int].0@, v@[j].0@));
                if !found {
                    lemma_key_lt_transitive(k@, v@[i as int].0@, v@[j].0@);
                }
            }
        }
        if found {
            lemma_index_of(v@, i as int);
        } else if has_key(v@, k@) {
            let j = choose|j: int| 0 <= j < v@.len() && #[trigger] v@[j].0@ == k@;
            lemma_key_lt_irreflexive(k@);
            if j == i {
            } else if j < i {
                assert(key_lt(v@[j].0@, k@));
            } else {
                assert(key_lt(k@, v@[j].0@));
            }
        }
    }
    (i, found)
}

/// Sets the value of key `k`, adding the entry or replacing its value.
pub fn put_entry<V: DeepView>(v: &mut Vec<(String, V)>, k: String, val: V)
    requires
        keys_sorted(old(v)@),
    ensures
        keys_sorted(final(v)@),
        entry_map(final(v)@) == entry_map(old(v)@).insert(k@, val.deep_view()),
        exists|p: int|
            0 <= p <= old(v)@.len() && (final(v)@ == old(v)@.insert(p, (k, val)) || (p < old(v)@.len()
                && old(v)@[p].0@ == k@ && final(v)@ == old(v)@.update(p, (k, val)))),
{
    let (p, found) = locate(v, k.as_str());
    let ghost s = v@;
    let ghost kk = k@;
    if found {
        v.remove(p);
        v.insert(p, (k, val));
        proof {
            assert(v@ =~= s.update(p as int, v@[p as int]));
            lemma_replace(s, p as int, v@[p as int]);
            assert(v@ == old(v)@.update(p as int, v@[p as int]));
        }
    } else {
        v.insert(p, (k, val));
        proof {
            lemma_insert_new(s, p as int, v@[p as int]);
            assert(v@ == old(v)@.insert(p as int, v@[p as int]));
        }
    }
}

/// Drops the entry with key `k`, if there is one.
pub fn drop_entry<V: DeepView>(v: &mut Vec<(String, V)>, k: &str)
    requires
        keys_sorted(old(v)@),
    ensures
        keys_sorted(final(v)@),
        entry_map(final(v)@) == entry_map(old(v)@).remove(k@),
{
    let (p, found) = locate(v, k);
    if found {
        let ghost s = v@;
        v.remove(p);
        proof {
            lemma_remove(s, p as int);
        }
    } else {
        assert(entry_map(v@).remove(k@) =~= entry_map(v@));
    }
}

/// The value of key `k`, if there is one.
pub fn find_entry<'a, V: DeepView>(v: &'a Vec<(String, V)>, k: &str) -> (r: Option<&'a V>)
    requires
        keys_sorted(v@),
    ensures
        r.is_some() == entry_map(v@).contains_key(k@),
        r.is_some() ==> r.unwrap().deep_view() == entry_map(v@)[k@],
{
    let (p, found) = locate(v, k);
    if found {
        proof {
            lemma_index_of(v@, p as int);
        }
        Some(&v[p].1)
    } else {
        None
    }
}

/// Two lists whose entries have equal views, position by position.
pub open spec fn same_entries<V: DeepView>(s: Seq<(String, V)>, t: Seq<(String, V)>) -> bool {
    &&& s.len() == t.len()
    &&& forall|i: int| 0 <= i < s.len() ==> #[trigger] s[i].0@ == t[i].0@ && s[i].1.deep_view() == t[i].1.deep_view()
}

/// An ordered list is fixed by what it maps its keys to.
pub proof fn lemma_sorted_unique<V: DeepView>(s: Seq<(String, V)>, t: Seq<(String, V)>)
    requires
        keys_sorted(s),
        keys_sorted(t),
        entry_map(s) == entry_map(t),
    ensures
        same_entries(s, t),
    decreases s.len(),
{
    if s.len() == 0 {
        if t.len() > 0 {
            lemma_index_of(t, 0);
            assert(entry_map(s).contains_key(t[0].0@));
        }
    } else if t.len() == 0 {
        lemma_index_of(s, 0);
        assert(entry_map(t).contains_key(s[0].0@));
    } else {
        let a = s[0].0@;
        let b = t[0].0@;
        lemma_index_of(s, 0);
        lemma_index_of(t, 0);
        if a != b {
            assert(has_key(t, a));
            let j = choose|j: int| 0 <= j < t.len() && #[trigger] t[j].0@ == a;
            assert(has_key(s, b));
            let i = choose|i: int| 0 <= i < s.len() && #[trigger] s[i].0@ == b;
            assert(key_lt(t[0].0@, t[j].0@));
            assert(key_lt(s[0].0@, s[i].0@));
            lemma_key_lt_transitive(a, b, a);
            lemma_key_lt_irreflexive(a);
        }
        lemma_remove(s, 0);
        lemma_remove(t, 0);
        lemma_sorted_unique(s.remove(0), t.remove(0));
        assert forall|i: int| 0 <= i < s.len() implies #[trigger] s[i].0@ == t[i].0@ && s[i].1.deep_view()
            == t[i].1.deep_view() by {
            if i > 0 {
                assert(s[i] == s.remove(0)[i - 1]);
                assert(t[i] == t.remove(0)[i - 1]);
            }
        }
    }
}

/// `m` after setting each entry of `s` in turn.
pub open spec fn fold_insert<W>(m: Map<Seq<char>, W>, s: Seq<(Seq<char>, W)>) -> Map<Seq<char>, W>
    decreases s.len(),
{
    if s.len() == 0 {
        m
    } else {
        fold_insert(m, s.drop_last()).insert(s.last().0, s.last().1)
    }
}

} // verus!
