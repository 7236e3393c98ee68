//! Association lists kept in strict key order: the representation of the
//! library's string-keyed maps (the order of `BTreeMap<String, _>`).
use vstd::prelude::*;

use crate::text::{
    lemma_lt_asymmetric, lemma_lt_irreflexive, lemma_lt_total, lemma_lt_transitive, seq_lt, str_eq,
    str_lt,
};

verus! {

/// Keys strictly increasing.
pub open spec fn sorted_keys<V>(s: Seq<(Seq<char>, V)>) -> bool {
    forall|i: int, j: int| 0 <= i < j < s.len() ==> seq_lt(#[trigger] s[i].0, #[trigger] s[j].0)
}

/// The entry for `k`, if any (the first one).
pub open spec fn assoc_get<V>(s: Seq<(Seq<char>, V)>, k: Seq<char>) -> Option<V>
    decreases s.len(),
{
    if s.len() == 0 {
        None
    } else if s[0].0 == k {
        Some(s[0].1)
    } else {
        assoc_get(s.drop_first(), k)
    }
}

/// The map that an association list stands for.
pub open spec fn assoc_map<V>(s: Seq<(Seq<char>, V)>) -> Map<Seq<char>, V> {
    Map::new(|k: Seq<char>| assoc_get(s, k) is Some, |k: Seq<char>| assoc_get(s, k)->0)
}

pub open spec fn keys_of<V>(s: Seq<(Seq<char>, V)>) -> Seq<Seq<char>> {
    s.map_values(|e: (Seq<char>, V)| e.0)
}

/// Number of entries whose key sorts before `k`, for sorted `s`: where `k` goes.
pub open spec fn insert_pos<V>(s: Seq<(Seq<char>, V)>, k: Seq<char>) -> int
    decreases s.len(),
{
    if s.len() == 0 {
        0
    } else if seq_lt(s[0].0, k) {
        1 + insert_pos(s.drop_first(), k)
    } else {
        0
    }
}

/// The list with the entry for `k` set to `v` (added in order, or replaced).
pub open spec fn sorted_insert<V>(s: Seq<(Seq<char>, V)>, k: Seq<char>, v: V) -> Seq<
    (Seq<char>, V),
> {
    let p = insert_pos(s, k);
    if p < s.len() && s[p].0 == k {
        s.take(p) + seq![(k, v)] + s.skip(p + 1)
    } else {
        s.take(p) + seq![(k, v)] + s.skip(p)
    }
}

/// Insert every entry of `e` in order.
pub open spec fn insert_all<V>(acc: Seq<(Seq<char>, V)>, e: Seq<(Seq<char>, V)>) -> Seq<
    (Seq<char>, V),
>
    decreases e.len(),
{
    if e.len() == 0 {
        acc
    } else {
        let prev = insert_all(acc, e.drop_last());
        sorted_insert(prev, e.last().0, e.last().1)
    }
}

pub open spec fn map_vals<V, W>(s: Seq<(Seq<char>, V)>, f: spec_fn(V) -> W) -> Seq<
    (Seq<char>, W),
> {
    s.map_values(|e: (Seq<char>, V)| (e.0, f(e.1)))
}

/// Keys of an exec list.
pub open spec fn keyed<V>(s: Seq<(String, V)>) -> Seq<(Seq<char>, V)> {
    s.map_values(|e: (String, V)| (e.0@, e.1))
}

// ---------------------------------------------------------------------------
// Lemmas
// ---------------------------------------------------------------------------

pub proof fn lemma_sorted_drop_first<V>(s: Seq<(Seq<char>, V)>)
    requires
        sorted_keys(s),
        s.len() > 0,
    ensures
        sorted_keys(s.drop_first()),
        forall|i: int| 0 <= i < s.drop_first().len() ==> seq_lt(s[0].0, #[trigger] s.drop_first()[i].0),
{
    assert forall|i: int, j: int| 0 <= i < j < s.drop_first().len() implies seq_lt(
        #[trigger] s.drop_first()[i].0,
        #[trigger] s.drop_first()[j].0,
    ) by {
        assert(s.drop_first()[i] == s[i + 1]);
        assert(s.drop_first()[j] == s[j + 1]);
    }
    assert forall|i: int| 0 <= i < s.drop_first().len() implies seq_lt(
        s[0].0,
        #[trigger] s.drop_first()[i].0,
    ) by {
        assert(s.drop_first()[i] == s[i + 1]);
    }
}

/// In a sorted list, the entry for `k` is the one at the index with that key.
pub proof fn lemma_get_index<V>(s: Seq<(Seq<char>, V)>, k: Seq<char>)
    requires
        sorted_keys(s),
    ensures
        match assoc_get(s, k) {
            Some(v) => exists|i: int| 0 <= i < s.len() && s[i].0 == k && s[i].1 == v,
            None => forall|i: int| 0 <= i < s.len() ==> s[i].0 != k,
        },
        forall|i: int| 0 <= i < s.len() && s[i].0 == k ==> assoc_get(s, k) == Some(s[i].1),
    decreases s.len(),
{
    if s.len() > 0 {
        lemma_sorted_drop_first(s);
        lemma_get_index(s.drop_first(), k);
        if s[0].0 != k {
            match assoc_get(s, k) {
                Some(v) => {
                    let i = choose|i: int|
                        0 <= i < s.drop_first().len() && s.drop_first()[i].0 == k
                            && s.drop_first()[i].1 == v;
                    assert(s[i + 1] == s.drop_first()[i]);
                },
                None => {
                    assert forall|i: int| 0 <= i < s.len() implies s[i].0 != k by {
                        if i > 0 {
                            assert(s[i] == s.drop_first()[i - 1]);
                        }
                    }
                },
            }
            assert forall|i: int| 0 <= i < s.len() && s[i].0 == k implies assoc_get(s, k) == Some(
                s[i].1,
            ) by {
                assert(i > 0);
                assert(s[i] == s.drop_first()[i - 1]);
            }
        } else {
            assert forall|i: int| 0 <= i < s.len() && s[i].0 == k implies assoc_get(s, k) == Some(
                s[i].1,
            ) by {
                if i > 0 {
                    assert(seq_lt(s[0].0, s[i].0));
                    lemma_lt_irreflexive(k);
                }
            }
        }
    }
}

proof fn lemma_insert_pos<V>(s: Seq<(Seq<char>, V)>, k: Seq<char>)
    requires
        sorted_keys(s),
    ensures
        0 <= insert_pos(s, k) <= s.len(),
        forall|i: int| 0 <= i < insert_pos(s, k) ==> seq_lt(#[trigger] s[i].0, k),
        forall|i: int| insert_pos(s, k) <= i < s.len() ==> !seq_lt(#[trigger] s[i].0, k),
        forall|i: int| insert_pos(s, k) < i < s.len() ==> seq_lt(k, #[trigger] s[i].0),
    decreases s.len(),
{
    if s.len() > 0 {
        lemma_sorted_drop_first(s);
        lemma_insert_pos(s.drop_first(), k);
        let p = insert_pos(s, k);
        if seq_lt(s[0].0, k) {
            assert forall|i: int| 0 <= i < p implies seq_lt(#[trigger] s[i].0, k) by {
                if i > 0 {
                    assert(s[i] == s.drop_first()[i - 1]);
                }
            }
            assert forall|i: int| p <= i < s.len() implies !seq_lt(#[trigger] s[i].0, k) by {
                assert(s[i] == s.drop_first()[i - 1]);
            }
            assert forall|i: int| p < i < s.len() implies seq_lt(k, #[trigger] s[i].0) by {
                assert(s[i] == s.drop_first()[i - 1]);
            }
        } else {
            assert forall|i: int| 0 <= i < s.len() implies !seq_lt(#[trigger] s[i].0, k) by {
                if i > 0 {
                    assert(seq_lt(s[0].0, s[i].0));
                    if seq_lt(s[i].0, k) {
                        lemma_lt_transitive(s[0].0, s[i].0, k);
                    }
                }
            }
            assert forall|i: int| 0 < i < s.len() implies seq_lt(k, #[trigger] s[i].0) by {
                assert(seq_lt(s[0].0, s[i].0));
                lemma_lt_total(s[0].0, k);
                if s[0].0 == k {
                } else {
                    lemma_lt_transitive(k, s[0].0, s[i].0);
                }
            }
        }
    }
}

/// Inserting keeps the keys sorted and sets exactly the entry for `k`.
pub proof fn lemma_sorted_insert<V>(s: Seq<(Seq<char>, V)>, k: Seq<char>, v: V)
    requires
        sorted_keys(s),
    ensures
        sorted_keys(sorted_insert(s, k, v)),
        forall|k2: Seq<char>|
            #[trigger] assoc_get(sorted_insert(s, k, v), k2) == if k2 == k {
                Some(v)
            } else {
                assoc_get(s, k2)
            },
        sorted_insert(s, k, v).len() == if assoc_get(s, k) is Some {
            s.len()
        } else {
            s.len() + 1
        },
{
    lemma_insert_pos(s, k);
    let p = insert_pos(s, k);
    let r = sorted_insert(s, k, v);
    let hit = p < s.len() && s[p].0 == k;
    let q = if hit {
        p + 1
    } else {
        p
    };
    assert(r =~= s.take(p) + seq![(k, v)] + s.skip(q));
    assert forall|i: int| 0 <= i < r.len() implies #[trigger] r[i] == if i < p {
        s[i]
    } else if i == p {
        (k, v)
    } else {
        s[i - p - 1 + q]
    } by {}
    if !hit && p < s.len() {
        lemma_lt_total(s[p].0, k);
    }
    assert forall|i: int, j: int| 0 <= i < j < r.len() implies seq_lt(
        #[trigger] r[i].0,
        #[trigger] r[j].0,
    ) by {
        if j < p {
        } else if j == p {
        } else if i < p {
            let jj = j - p - 1 + q;
            assert(seq_lt(s[i].0, k));
            if hit {
                assert(seq_lt(k, s[jj].0) || jj == p);
                assert(jj > p);
            }
            assert(seq_lt(k, s[jj].0));
            lemma_lt_transitive(s[i].0, k, s[jj].0);
        } else if i == p {
            let jj = j - p - 1 + q;
            if hit {
                assert(jj > p);
            } else {
                if jj == p {
                    assert(!seq_lt(s[p].0, k));
                } else {
                    assert(seq_lt(k, s[jj].0));
                }
            }
        } else {
            let ii = i - p - 1 + q;
            let jj = j - p - 1 + q;
            assert(seq_lt(s[ii].0, s[jj].0));
        }
    }
    lemma_get_index(s, k);
    lemma_get_index(r, k);
    assert(r[p] == (k, v));
    assert forall|k2: Seq<char>| #[trigger] assoc_get(r, k2) == if k2 == k {
        Some(v)
    } else {
        assoc_get(s, k2)
    } by {
        lemma_get_index(s, k2);
        lemma_get_index(r, k2);
        if k2 != k {
            match assoc_get(s, k2) {
                Some(w) => {
                    let i = choose|i: int| 0 <= i < s.len() && s[i].0 == k2 && s[i].1 == w;
                    if i < p {
                        assert(r[i] == s[i]);
                    } else {
                        assert(i != p || !hit);
                        assert(r[i + 1 - q + p] == s[i]);
                    }
                },
                None => {
                    assert forall|i: int| 0 <= i < r.len() implies r[i].0 != k2 by {
                        if i < p {
                        } else if i == p {
                        } else {
                            assert(r[i] == s[i - p - 1 + q]);
                        }
                    }
                },
            }
        }
    }
    if hit {
        assert(assoc_get(s, k) is Some);
    } else {
        assert forall|i: int| 0 <= i < s.len() implies s[i].0 != k by {
            if i < p {
                lemma_lt_irreflexive(k);
            } else if i > p {
                lemma_lt_irreflexive(k);
            }
        }
    }
}

/// Inserting all entries of a sorted list: its entries win, the others stay.
pub proof fn lemma_insert_all<V>(acc: Seq<(Seq<char>, V)>, e: Seq<(Seq<char>, V)>)
    requires
        sorted_keys(acc),
        sorted_keys(e),
    ensures
        sorted_keys(insert_all(acc, e)),
        forall|k: Seq<char>|
            #[trigger] assoc_get(insert_all(acc, e), k) == match assoc_get(e, k) {
                Some(v) => Some(v),
                None => assoc_get(acc, k),
            },
    decreases e.len(),
{
    if e.len() > 0 {
        let d = e.drop_last();
        assert(sorted_keys(d)) by {
            assert forall|i: int, j: int| 0 <= i < j < d.len() implies seq_lt(
                #[trigger] d[i].0,
                #[trigger] d[j].0,
            ) by {
                assert(d[i] == e[i] && d[j] == e[j]);
            }
        }
        lemma_insert_all(acc, d);
        let prev = insert_all(acc, d);
        lemma_sorted_insert(prev, e.last().0, e.last().1);
        assert forall|k: Seq<char>| #[trigger] assoc_get(insert_all(acc, e), k) == match assoc_get(
            e,
            k,
        ) {
            Some(v) => Some(v),
            None => assoc_get(acc, k),
        } by {
            lemma_get_index(e, k);
            lemma_get_index(d, k);
            assert(assoc_get(prev, k) == match assoc_get(d, k) {
                Some(v) => Some(v),
                None => assoc_get(acc, k),
            });
            if k == e.last().0 {
                assert(e[e.len() - 1].0 == k);
            } else {
                match assoc_get(e, k) {
                    Some(v) => {
                        let i = choose|i: int| 0 <= i < e.len() && e[i].0 == k && e[i].1 == v;
                        assert(i < e.len() - 1);
                        assert(d[i] == e[i]);
                    },
                    None => {
                        assert forall|i: int| 0 <= i < d.len() implies d[i].0 != k by {
                            assert(d[i] == e[i]);
                        }
                    },
                }
            }
        }
    }
}

/// Two sorted lists with the same entries are the same list.
pub proof fn lemma_sorted_ext<V>(a: Seq<(Seq<char>, V)>, b: Seq<(Seq<char>, V)>)
    requires
        sorted_keys(a),
        sorted_keys(b),
        forall|k: Seq<char>| #[trigger] assoc_get(a, k) == assoc_get(b, k),
    ensures
        a == b,
    decreases a.len() + b.len(),
{
    lemma_get_index(a, Seq::empty());
    if a.len() == 0 {
        if b.len() > 0 {
            lemma_get_index(b, b[0].0);
            assert(assoc_get(a, b[0].0) == assoc_get(b, b[0].0));
        }
        assert(a =~= b);
    } else if b.len() == 0 {
        lemma_get_index(a, a[0].0);
        assert(assoc_get(a, a[0].0) == assoc_get(b, a[0].0));
    } else {
        lemma_get_index(a, a[0].0);
        lemma_get_index(b, a[0].0);
        lemma_get_index(a, b[0].0);
        lemma_get_index(b, b[0].0);
        assert(assoc_get(a, a[0].0) == assoc_get(b, a[0].0));
        assert(assoc_get(a, b[0].0) == assoc_get(b, b[0].0));
        let i = choose|i: int| 0 <= i < b.len() && b[i].0 == a[0].0 && b[i].1 == a[0].1;
        let j = choose|j: int| 0 <= j < a.len() && a[j].0 == b[0].0 && a[j].1 == b[0].1;
        if i > 0 {
            assert(seq_lt(b[0].0, b[i].0));
            if j > 0 {
                assert(seq_lt(a[0].0, a[j].0));
                lemma_lt_asymmetric(a[0].0, b[0].0);
            } else {
                lemma_lt_irreflexive(a[0].0);
            }
        }
        assert(b[0] == a[0]);
        lemma_sorted_drop_first(a);
        lemma_sorted_drop_first(b);
        assert forall|k: Seq<char>| #[trigger] assoc_get(a.drop_first(), k) == assoc_get(
            b.drop_first(),
            k,
        ) by {
            assert(assoc_get(a, k) == assoc_get(b, k));
            if k == a[0].0 {
                lemma_get_index(a.drop_first(), k);
                lemma_get_index(b.drop_first(), k);
                lemma_lt_irreflexive(k);
                assert(assoc_get(a.drop_first(), k) is None);
                assert(assoc_get(b.drop_first(), k) is None);
            }
        }
        lemma_sorted_ext(a.drop_first(), b.drop_first());
        assert(a =~= seq![a[0]] + a.drop_first());
        assert(b =~= seq![b[0]] + b.drop_first());
    }
}

pub proof fn lemma_map_vals_insert<V, W>(
    s: Seq<(Seq<char>, V)>,
    k: Seq<char>,
    v: V,
    f: spec_fn(V) -> W,
)
    ensures
        0 <= insert_pos(s, k) <= s.len(),
        insert_pos(map_vals(s, f), k) == insert_pos(s, k),
        map_vals(sorted_insert(s, k, v), f) == sorted_insert(map_vals(s, f), k, f(v)),
    decreases s.len(),
{
    let ms = map_vals(s, f);
    if s.len() > 0 {
        lemma_map_vals_insert(s.drop_first(), k, v, f);
        assert(ms.drop_first() =~= map_vals(s.drop_first(), f));
        assert(ms[0].0 == s[0].0);
    }
    let p = insert_pos(s, k);
    assert(p == insert_pos(ms, k));
    if 0 <= p < s.len() {
        assert(ms[p].0 == s[p].0);
    }
    if p < s.len() && s[p].0 == k {
        assert(map_vals(s.take(p) + seq![(k, v)] + s.skip(p + 1), f) =~= ms.take(p) + seq![
            (k, f(v)),
        ] + ms.skip(p + 1));
    } else {
        assert(map_vals(s.take(p) + seq![(k, v)] + s.skip(p), f) =~= ms.take(p) + seq![
            (k, f(v)),
        ] + ms.skip(p));
    }
}

// ---------------------------------------------------------------------------
// Exec operations on `Vec<(String, V)>`
// ---------------------------------------------------------------------------

/// Index of the entry for `k` in a sorted list, if any.
pub fn assoc_find<V>(t: &Vec<(String, V)>, k: &str) -> (r: Option<usize>)
    requires
        sorted_keys(keyed(t@)),
    ensures
        match r {
            Some(i) => i < t.len() && t@[i as int].0@ == k@ && assoc_get(keyed(t@), k@) == Some(
                t@[i as int].1,
            ),
            None => assoc_get(keyed(t@), k@) is None,
        },
{
    proof {
        lemma_get_index(keyed(t@), k@);
    }
    let mut i: usize = 0;
    while i < t.len()
        invariant
            i <= t.len(),
            sorted_keys(keyed(t@)),
            forall|j: int| 0 <= j < i ==> t@[j].0@ != k@,
        decreases t.len() - i,
    {
        if str_eq(t[i].0.as_str(), k) {
            proof {
                lemma_get_index(keyed(t@), k@);
                assert(keyed(t@)[i as int] == (t@[i as int].0@, t@[i as int].1));
            }
            return Some(i);
        }
        i = i + 1;
    }
    proof {
        if assoc_get(keyed(t@), k@) is Some {
            let j = choose|j: int| 0 <= j < keyed(t@).len() && keyed(t@)[j].0 == k@;
            assert(t@[j].0@ == k@);
        }
    }
    None
}

/// Set the entry for `k` to `x`, keeping the keys sorted.
pub fn assoc_insert<V>(t: &mut Vec<(String, V)>, k: String, x: V)
    requires
        sorted_keys(keyed(old(t)@)),
    ensures
        keyed(final(t)@) == sorted_insert(keyed(old(t)@), k@, x),
        sorted_keys(keyed(final(t)@)),
{
    let ghost s = keyed(t@);
    proof {
        lemma_insert_pos(s, k@);
        lemma_sorted_insert(s, k@, x);
    }
    let mut i: usize = 0;
    while i < t.len() && str_lt(t[i].0.as_str(), k.as_str())
        invariant
            s == keyed(t@),
            0 <= i <= insert_pos(s, k@),
            sorted_keys(s),
        decreases t.len() - i,
    {
        proof {
            lemma_insert_pos(s, k@);
            assert(s[i as int].0 == t@[i as int].0@);
        }
        i = i + 1;
    }
    proof {
        if i < t.len() {
            assert(!seq_lt(s[i as int].0, k@));
        }
    }
    assert(i == insert_pos(s, k@));
    if i < t.len() && str_eq(t[i].0.as_str(), k.as_str()) {
        let _old = t.remove(i);
        t.insert(i, (k, x));
        assert(keyed(t@) =~= sorted_insert(s, k@, x));
    } else {
        t.insert(i, (k, x));
        assert(keyed(t@) =~= sorted_insert(s, k@, x));
    }
}

/// Removing the entry at `i` from a sorted list keeps it sorted and drops
/// exactly the entry for its key.
pub proof fn lemma_sorted_remove<V>(s: Seq<(Seq<char>, V)>, i: int)
    requires
        sorted_keys(s),
        0 <= i < s.len(),
    ensures
        sorted_keys(s.remove(i)),
        forall|k: Seq<char>|
            #[trigger] assoc_get(s.remove(i), k) == if k == s[i].0 {
                None
            } else {
                assoc_get(s, k)
            },
{
    let r = s.remove(i);
    assert forall|a: int, b: int| 0 <= a < b < r.len() implies seq_lt(
        #[trigger] r[a].0,
        #[trigger] r[b].0,
    ) by {
        let aa = if a < i {
            a
        } else {
            a + 1
        };
        let bb = if b < i {
            b
        } else {
            b + 1
        };
        assert(r[a] == s[aa] && r[b] == s[bb]);
    }
    assert forall|k: Seq<char>| #[trigger] assoc_get(r, k) == if k == s[i].0 {
        None
    } else {
        assoc_get(s, k)
    } by {
        lemma_get_index(s, k);
        lemma_get_index(r, k);
        if k == s[i].0 {
            assert forall|j: int| 0 <= j < r.len() implies r[j].0 != k by {
                let jj = if j < i {
                    j
                } else {
                    j + 1
                };
                assert(r[j] == s[jj]);
                lemma_lt_irreflexive(k);
                if jj < i {
                    assert(seq_lt(s[jj].0, s[i].0));
                } else {
                    assert(seq_lt(s[i].0, s[jj].0));
                }
            }
        } else {
            match assoc_get(s, k) {
                Some(v) => {
                    let j = choose|j: int| 0 <= j < s.len() && s[j].0 == k && s[j].1 == v;
                    if j < i {
                        assert(r[j] == s[j]);
                    } else {
                        assert(j != i);
                        assert(r[j - 1] == s[j]);
                    }
                },
                None => {
                    assert forall|j: int| 0 <= j < r.len() implies r[j].0 != k by {
                        if j < i {
                            assert(r[j] == s[j]);
                        } else {
                            assert(r[j] == s[j + 1]);
                        }
                    }
                },
            }
        }
    }
}

/// Remove the entry for `k`, if any.
pub fn assoc_remove<V>(t: &mut Vec<(String, V)>, k: &str)
    requires
        sorted_keys(keyed(old(t)@)),
    ensures
        sorted_keys(keyed(final(t)@)),
        forall|k2: Seq<char>|
            #[trigger] assoc_get(keyed(final(t)@), k2) == if k2 == k@ {
                None
            } else {
                assoc_get(keyed(old(t)@), k2)
            },
{
    let ghost s = keyed(t@);
    match assoc_find(t, k) {
        Some(i) => {
            let _removed = t.remove(i);
            proof {
                lemma_sorted_remove(s, i as int);
                assert(keyed(t@) =~= s.remove(i as int));
            }
        },
        None => {
            proof {
                assert forall|k2: Seq<char>| #[trigger] assoc_get(keyed(t@), k2) == if k2 == k@ {
                    None
                } else {
                    assoc_get(keyed(old(t)@), k2)
                } by {}
            }
        },
    }
}

} // verus!
