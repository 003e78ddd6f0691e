//! Stable sorting by a precomputed key.
use vstd::prelude::*;

verus! {

/// `s` (sorted by key) with `x` inserted after every element whose key is
/// at most `x`'s.
pub open spec fn insert_by_key<T>(s: Seq<(usize, T)>, x: (usize, T)) -> Seq<(usize, T)>
    decreases s.len(),
{
    if s.len() == 0 || s.last().0 <= x.0 {
        s.push(x)
    } else {
        insert_by_key(s.drop_last(), x).push(s.last())
    }
}

/// `s` sorted by key, elements with equal keys keeping their order: a
/// stable insertion sort.
pub open spec fn sort_by_key<T>(s: Seq<(usize, T)>) -> Seq<(usize, T)>
    decreases s.len(),
{
    if s.len() == 0 {
        Seq::empty()
    } else {
        insert_by_key(sort_by_key(s.drop_last()), s.last())
    }
}

/// Sorts `v` by key, as [`sort_by_key`] says.
pub fn sort_keyed<T>(v: Vec<(usize, T)>) -> (r: Vec<(usize, T)>)
    ensures
        r@ == sort_by_key(v@),
{
    let mut v = v;
    let ghost orig = v@;
    let ghost n = orig.len();
    let mut out: Vec<(usize, T)> = Vec::new();
    proof {
        assert(orig.subrange(0, 0) =~= Seq::<(usize, T)>::empty());
        assert(orig.subrange(0, n as int) =~= orig);
    }
    while v.len() > 0
        invariant
            n == orig.len(),
            v@.len() <= n,
            v@ == orig.subrange(n - v@.len(), n as int),
            out@ == sort_by_key(orig.subrange(0, n - v@.len())),
        decreases v@.len(),
    {
        let ghost k = n - v@.len();
        let ghost before = v@;
        let x = v.remove(0);
        proof {
            assert(x == orig[k]);
            assert(v@ =~= orig.subrange(n - v@.len(), n as int));
            assert(orig.subrange(0, k + 1).drop_last() =~= orig.subrange(0, k));
            assert(orig.subrange(0, k + 1).last() == x);
        }
        out = insert_keyed(out, x);
    }
    proof {
        assert(orig.subrange(0, n as int) =~= orig);
    }
    out
}

fn insert_keyed<T>(s: Vec<(usize, T)>, x: (usize, T)) -> (r: Vec<(usize, T)>)
    ensures
        r@ == insert_by_key(s@, x),
    decreases s@.len(),
{
    let mut s = s;
    if s.len() == 0 || s[s.len() - 1].0 <= x.0 {
        s.push(x);
        return s;
    }
    let ghost before = s@;
    let last = s.pop().unwrap();
    proof {
        assert(before =~= s@.push(last));
        assert(before.drop_last() =~= s@);
    }
    let mut r = insert_keyed(s, x);
    r.push(last);
    r
}


/// The pairs of `s` with `f` applied to their second parts.
pub open spec fn map_second<T, U>(s: Seq<(usize, T)>, f: spec_fn(T) -> U) -> Seq<(usize, U)> {
    Seq::new(s.len(), |i: int| (s[i].0, f(s[i].1)))
}

proof fn lemma_insert_map<T, U>(s: Seq<(usize, T)>, x: (usize, T), f: spec_fn(T) -> U)
    ensures
        insert_by_key(map_second(s, f), (x.0, f(x.1))) == map_second(insert_by_key(s, x), f),
    decreases s.len(),
{
    if s.len() == 0 || s.last().0 <= x.0 {
        assert(map_second(s.push(x), f) =~= map_second(s, f).push((x.0, f(x.1))));
    } else {
        lemma_insert_map(s.drop_last(), x, f);
        assert(map_second(s, f).drop_last() =~= map_second(s.drop_last(), f));
        assert(map_second(insert_by_key(s.drop_last(), x), f).push((s.last().0, f(s.last().1))) =~= map_second(
            insert_by_key(s.drop_last(), x).push(s.last()),
            f,
        ));
    }
}

/// Sorting by key does not look at the second parts: applying `f` to them
/// before or after sorting gives the same.
pub proof fn lemma_sort_map<T, U>(s: Seq<(usize, T)>, f: spec_fn(T) -> U)
    ensures
        sort_by_key(map_second(s, f)) == map_second(sort_by_key(s), f),
    decreases s.len(),
{
    if s.len() == 0 {
        assert(map_second(Seq::<(usize, T)>::empty(), f) =~= Seq::<(usize, U)>::empty());
    } else {
        lemma_sort_map(s.drop_last(), f);
        assert(map_second(s, f).drop_last() =~= map_second(s.drop_last(), f));
        lemma_insert_map(sort_by_key(s.drop_last()), s.last(), f);
    }
}



/// Whether the keys of `s` never decrease.
pub open spec fn keys_sorted<T>(s: Seq<(usize, T)>) -> bool {
    forall|i: int, j: int| 0 <= i < j < s.len() ==> #[trigger] s[i].0 <= #[trigger] s[j].0
}

proof fn lemma_insert_bound<T>(s: Seq<(usize, T)>, x: (usize, T), b: usize)
    requires
        forall|i: int| 0 <= i < s.len() ==> #[trigger] s[i].0 <= b,
        x.0 <= b,
    ensures
        insert_by_key(s, x).len() == s.len() + 1,
        forall|i: int| 0 <= i < insert_by_key(s, x).len() ==> #[trigger] insert_by_key(s, x)[i].0 <= b,
    decreases s.len(),
{
    if s.len() == 0 || s.last().0 <= x.0 {
    } else {
        lemma_insert_bound(s.drop_last(), x, b);
    }
}

proof fn lemma_insert_sorted<T>(s: Seq<(usize, T)>, x: (usize, T))
    requires
        keys_sorted(s),
    ensures
        keys_sorted(insert_by_key(s, x)),
        insert_by_key(s, x).len() == s.len() + 1,
    decreases s.len(),
{
    if s.len() == 0 || s.last().0 <= x.0 {
        assert forall|i: int, j: int| 0 <= i < j < s.push(x).len() implies #[trigger] s.push(x)[i].0
            <= #[trigger] s.push(x)[j].0 by {
            if j == s.len() as int {
                if i < s.len() - 1 {
                    assert(s[i].0 <= s[s.len() - 1].0);
                }
            }
        }
    } else {
        let t = s.drop_last();
        assert(keys_sorted(t)) by {
            assert forall|i: int, j: int| 0 <= i < j < t.len() implies #[trigger] t[i].0 <= #[trigger] t[j].0 by {
                assert(t[i] == s[i] && t[j] == s[j]);
            }
        }
        lemma_insert_sorted(t, x);
        assert forall|i: int| 0 <= i < t.len() implies #[trigger] t[i].0 <= s.last().0 by {
            assert(t[i] == s[i]);
        }
        lemma_insert_bound(t, x, s.last().0);
        let u = insert_by_key(t, x);
        assert forall|i: int, j: int| 0 <= i < j < u.push(s.last()).len() implies #[trigger] u.push(s.last())[i].0
            <= #[trigger] u.push(s.last())[j].0 by {
            if j == u.len() as int {
                assert(u[i].0 <= s.last().0);
            }
        }
    }
}

/// A sort by key leaves the keys in order, and keeps the length.
pub proof fn lemma_sort_sorted<T>(s: Seq<(usize, T)>)
    ensures
        keys_sorted(sort_by_key(s)),
        sort_by_key(s).len() == s.len(),
    decreases s.len(),
{
    if s.len() > 0 {
        lemma_sort_sorted(s.drop_last());
        lemma_insert_sorted(sort_by_key(s.drop_last()), s.last());
    }
}



proof fn lemma_insert_all<T>(s: Seq<(usize, T)>, x: (usize, T), p: spec_fn((usize, T)) -> bool)
    requires
        forall|i: int| 0 <= i < s.len() ==> #[trigger] p(s[i]),
        p(x),
    ensures
        forall|i: int| 0 <= i < insert_by_key(s, x).len() ==> #[trigger] p(insert_by_key(s, x)[i]),
    decreases s.len(),
{
    if s.len() == 0 || s.last().0 <= x.0 {
        assert forall|i: int| 0 <= i < s.push(x).len() implies #[trigger] p(s.push(x)[i]) by {
            if i < s.len() {
                assert(s.push(x)[i] == s[i]);
            }
        }
    } else {
        let t = s.drop_last();
        assert forall|i: int| 0 <= i < t.len() implies #[trigger] p(t[i]) by {
            assert(t[i] == s[i]);
        }
        lemma_insert_all(t, x, p);
        let u = insert_by_key(t, x);
        assert forall|i: int| 0 <= i < u.push(s.last()).len() implies #[trigger] p(u.push(s.last())[i]) by {
            if i < u.len() {
                assert(u.push(s.last())[i] == u[i]);
            }
        }
    }
}

/// What holds of every element of `s` holds of every element of it sorted.
pub proof fn lemma_sort_all<T>(s: Seq<(usize, T)>, p: spec_fn((usize, T)) -> bool)
    requires
        forall|i: int| 0 <= i < s.len() ==> #[trigger] p(s[i]),
    ensures
        forall|i: int| 0 <= i < sort_by_key(s).len() ==> #[trigger] p(sort_by_key(s)[i]),
    decreases s.len(),
{
    if s.len() > 0 {
        let t = s.drop_last();
        assert forall|i: int| 0 <= i < t.len() implies #[trigger] p(t[i]) by {
            assert(t[i] == s[i]);
        }
        lemma_sort_all(t, p);
        lemma_insert_all(sort_by_key(t), s.last(), p);
    }
}


proof fn lemma_insert_multiset<T>(s: Seq<(usize, T)>, x: (usize, T))
    ensures
        insert_by_key(s, x).to_multiset() =~= s.to_multiset().insert(x),
    decreases s.len(),
{
    broadcast use vstd::seq_lib::group_to_multiset_ensures;

    if s.len() == 0 || s.last().0 <= x.0 {
    } else {
        let t = s.drop_last();
        lemma_insert_multiset(t, x);
        assert(s =~= t.push(s.last()));
    }
}

/// Sorting keeps every element, each as often as it occurs: the sorted
/// sequence is a permutation of the original.
pub proof fn lemma_sort_permutation<T>(s: Seq<(usize, T)>)
    ensures
        sort_by_key(s).to_multiset() =~= s.to_multiset(),
    decreases s.len(),
{
    broadcast use vstd::seq_lib::group_to_multiset_ensures;

    if s.len() > 0 {
        let t = s.drop_last();
        lemma_sort_permutation(t);
        lemma_insert_multiset(sort_by_key(t), s.last());
        assert(s =~= t.push(s.last()));
    }
}

/// Sorting is stable: two elements with the same key keep their order.
/// Stated over positions: where `s` holds distinct elements `a` before `b`
/// with equal keys, the sorted sequence holds `a` before `b` too.
pub proof fn lemma_sort_stable<T>(s: Seq<(usize, T)>, i: int, j: int)
    requires
        0 <= i < j < s.len(),
        s[i].0 == s[j].0,
        forall|a: int, b: int| 0 <= a < b < s.len() ==> #[trigger] s[a] != #[trigger] s[b],
    ensures
        exists|p: int, q: int|
            0 <= p < q < sort_by_key(s).len() && #[trigger] sort_by_key(s)[p] == s[i] && #[trigger] sort_by_key(s)[q]
                == s[j],
    decreases s.len(),
{
    let t = s.drop_last();
    lemma_sort_sorted(t);
    if j < s.len() - 1 {
        assert forall|a: int, b: int| 0 <= a < b < t.len() implies #[trigger] t[a] != #[trigger] t[b] by {
            assert(t[a] == s[a] && t[b] == s[b]);
        }
        assert(t[i] == s[i] && t[j] == s[j]);
        lemma_sort_stable(t, i, j);
        let u = sort_by_key(t);
        let (p, q) = choose|p: int, q: int| 0 <= p < q < u.len() && #[trigger] u[p] == s[i] && #[trigger] u[q] == s[j];
        lemma_insert_keeps_order(u, s.last(), p, q);
        let r = sort_by_key(s);
        assert(r == insert_by_key(u, s.last()));
        let (p2, q2) = choose|p2: int, q2: int|
            0 <= p2 < q2 < r.len() && #[trigger] r[p2] == u[p] && #[trigger] r[q2] == u[q];
        assert(r[p2] == s[i] && r[q2] == s[j]);
    } else {
        lemma_sort_permutation(t);
        broadcast use vstd::seq_lib::group_to_multiset_ensures;

        assert(t[i] == s[i]);
        assert(t.contains(s[i]));
        let u = sort_by_key(t);
        assert(u.to_multiset().count(s[i]) > 0);
        assert(u.contains(s[i]));
        let p = choose|p: int| 0 <= p < u.len() && u[p] == s[i];
        lemma_insert_after_equal(u, s.last(), p);
        let r = sort_by_key(s);
        assert(r == insert_by_key(u, s.last()));
        let (p2, q2) = choose|p2: int, q2: int|
            0 <= p2 < q2 < r.len() && #[trigger] r[p2] == u[p] && #[trigger] r[q2] == s.last();
        assert(r[p2] == s[i] && r[q2] == s[j]);
    }
}

proof fn lemma_insert_keeps_order<T>(u: Seq<(usize, T)>, x: (usize, T), p: int, q: int)
    requires
        0 <= p < q < u.len(),
    ensures
        exists|p2: int, q2: int|
            0 <= p2 < q2 < insert_by_key(u, x).len() && #[trigger] insert_by_key(u, x)[p2] == u[p]
                && #[trigger] insert_by_key(u, x)[q2] == u[q],
    decreases u.len(),
{
    let r = insert_by_key(u, x);
    if u.len() == 0 || u.last().0 <= x.0 {
        assert(r[p] == u[p] && r[q] == u[q]);
    } else {
        let t = u.drop_last();
        lemma_insert_bound_len(t, x);
        let w = insert_by_key(t, x);
        assert(r == w.push(u.last()));
        if q < u.len() - 1 {
            lemma_insert_keeps_order(t, x, p, q);
            let (p2, q2) = choose|p2: int, q2: int|
                0 <= p2 < q2 < w.len() && #[trigger] w[p2] == t[p] && #[trigger] w[q2] == t[q];
            assert(r[p2] == u[p] && r[q2] == u[q]);
        } else {
            lemma_insert_contains(t, x, p);
            let p2 = choose|p2: int| 0 <= p2 < w.len() && w[p2] == t[p];
            assert(r[p2] == u[p]);
            assert(r[w.len() as int] == u[q]);
        }
    }
}

proof fn lemma_insert_bound_len<T>(s: Seq<(usize, T)>, x: (usize, T))
    ensures
        insert_by_key(s, x).len() == s.len() + 1,
    decreases s.len(),
{
    if !(s.len() == 0 || s.last().0 <= x.0) {
        lemma_insert_bound_len(s.drop_last(), x);
    }
}

proof fn lemma_insert_contains<T>(s: Seq<(usize, T)>, x: (usize, T), p: int)
    requires
        0 <= p < s.len(),
    ensures
        exists|p2: int| 0 <= p2 < insert_by_key(s, x).len() && insert_by_key(s, x)[p2] == s[p],
    decreases s.len(),
{
    lemma_insert_bound_len(s, x);
    if s.len() == 0 || s.last().0 <= x.0 {
        assert(s.push(x)[p] == s[p]);
    } else {
        let t = s.drop_last();
        lemma_insert_bound_len(t, x);
        let w = insert_by_key(t, x);
        if p < s.len() - 1 {
            lemma_insert_contains(t, x, p);
            let p2 = choose|p2: int| 0 <= p2 < w.len() && w[p2] == t[p];
            assert(w.push(s.last())[p2] == w[p2]);
        } else {
            assert(w.push(s.last())[w.len() as int] == s[p]);
        }
    }
}

/// Inserting `x` into a sequence sorted by key puts it after every element
/// whose key is at most `x`'s; in particular after an element with its key.
proof fn lemma_insert_after_equal<T>(u: Seq<(usize, T)>, x: (usize, T), p: int)
    requires
        0 <= p < u.len(),
        u[p].0 == x.0,
        keys_sorted(u),
    ensures
        exists|p2: int, q2: int|
            0 <= p2 < q2 < insert_by_key(u, x).len() && #[trigger] insert_by_key(u, x)[p2] == u[p]
                && #[trigger] insert_by_key(u, x)[q2] == x,
    decreases u.len(),
{
    lemma_insert_bound_len(u, x);
    if u.len() == 0 || u.last().0 <= x.0 {
        assert(u.push(x)[p] == u[p] && u.push(x)[u.len() as int] == x);
    } else {
        // The last key is above x's, so p is not the last position.
        assert(p < u.len() - 1);
        let t = u.drop_last();
        assert(keys_sorted(t)) by {
            assert forall|a: int, b: int| 0 <= a < b < t.len() implies #[trigger] t[a].0 <= #[trigger] t[b].0 by {
                assert(t[a] == u[a] && t[b] == u[b]);
            }
        }
        assert(t[p] == u[p]);
        lemma_insert_after_equal(t, x, p);
        lemma_insert_bound_len(t, x);
        let w = insert_by_key(t, x);
        let (p2, q2) = choose|p2: int, q2: int| 0 <= p2 < q2 < w.len() && #[trigger] w[p2] == t[p] && #[trigger] w[q2] == x;
        assert(w.push(u.last())[p2] == w[p2] && w.push(u.last())[q2] == w[q2]);
    }
}

} // verus!
