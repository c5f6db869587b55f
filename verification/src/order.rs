//! Sorting by a text and a number, keeping the order of equal keys.

use vstd::prelude::*;
use crate::text::{lemma_lex_total, lemma_lex_transitive, lex_less, str_less};

verus! {

/// What a list is sorted by: first the text, then the number.
pub type Key = (Seq<char>, i64);

/// The keys of a list.
pub open spec fn key_views(keys: Seq<(String, i64)>) -> Seq<Key> {
    Seq::new(keys.len(), |i: int| (keys[i].0@, keys[i].1))
}

/// Adding a key adds its view.
pub broadcast proof fn lemma_key_views_push(keys: Seq<(String, i64)>, k: (String, i64))
    ensures
        #[trigger] key_views(keys.push(k)) == key_views(keys).push((k.0@, k.1)),
{
    assert(key_views(keys.push(k)) =~= key_views(keys).push((k.0@, k.1)));
}

/// Whether a key comes before another.
pub open spec fn key_less(a: Key, b: Key) -> bool {
    lex_less(a.0, b.0) || (a.0 == b.0 && a.1 < b.1)
}

/// Whether item `i` of a list comes before item `j` when the list is sorted: by
/// its key, or, of two items with one key, by its place in the list.
pub open spec fn before(keys: Seq<Key>, i: int, j: int) -> bool {
    key_less(keys[i], keys[j]) || (keys[i] == keys[j] && i < j)
}

/// Whether `o` names the items of a list in sorted order, each of them once.
pub open spec fn is_order(keys: Seq<Key>, o: Seq<int>) -> bool {
    &&& o.len() == keys.len()
    &&& forall|a: int| 0 <= a < o.len() ==> 0 <= #[trigger] o[a] < keys.len()
    &&& forall|a: int, b: int| 0 <= a < b < o.len() ==> before(keys, #[trigger] o[a], #[trigger] o[b])
    &&& forall|i: int| 0 <= i < keys.len() ==> #[trigger] o.contains(i)
}

/// The items of a list in the order `o`.
pub open spec fn pick<T>(s: Seq<T>, o: Seq<int>) -> Seq<T> {
    Seq::new(o.len(), |a: int| s[o[a]])
}

/// Whether `r` is the list `s`, sorted by `keys`.
pub open spec fn is_sorted_by<T>(s: Seq<T>, keys: Seq<Key>, r: Seq<T>) -> bool {
    exists|o: Seq<int>| is_order(keys, o) && r == #[trigger] pick(s, o)
}

proof fn lemma_key_order(a: Key, b: Key)
    ensures
        !key_less(a, a),
        key_less(a, b) ==> !key_less(b, a),
        a != b ==> key_less(a, b) || key_less(b, a),
{
    lemma_lex_total(a.0, b.0);
    lemma_lex_total(b.0, a.0);
}

/// Of two places of which one comes before the other, they are not the same, and the key of
/// the other is not less.
pub proof fn lemma_before_differs(keys: Seq<Key>, i: int, j: int)
    requires
        before(keys, i, j),
    ensures
        i != j,
        !key_less(keys[j], keys[i]),
        !lex_less(keys[j].0, keys[i].0),
        keys[i].0 == keys[j].0 ==> keys[i].1 <= keys[j].1,
{
    lemma_key_order(keys[i], keys[j]);
    lemma_lex_total(keys[i].0, keys[j].0);
    lemma_lex_total(keys[j].0, keys[i].0);
}

proof fn lemma_key_transitive(a: Key, b: Key, c: Key)
    requires
        key_less(a, b),
        key_less(b, c),
    ensures
        key_less(a, c),
{
    if lex_less(a.0, b.0) && lex_less(b.0, c.0) {
        lemma_lex_transitive(a.0, b.0, c.0);
    }
}

/// There is no more than one sorted order of a list.
pub proof fn law_order_is_unique(keys: Seq<Key>, o: Seq<int>, p: Seq<int>)
    requires
        is_order(keys, o),
        is_order(keys, p),
    ensures
        o == p,
{
    lemma_order_unique_upto(keys, o, p, o.len() as int);
    assert(o.take(o.len() as int) =~= o);
    assert(p.take(p.len() as int) =~= p);
}

proof fn lemma_order_unique_upto(keys: Seq<Key>, o: Seq<int>, p: Seq<int>, n: int)
    requires
        is_order(keys, o),
        is_order(keys, p),
        0 <= n <= o.len(),
    ensures
        o.take(n) == p.take(n),
    decreases n,
{
    if n > 0 {
        lemma_order_unique_upto(keys, o, p, n - 1);
        let k = n - 1;
        assert forall|j: int| 0 <= j < k implies #[trigger] o[j] == p[j] by {
            assert(o.take(k)[j] == p.take(k)[j]);
        }
        if o[k] != p[k] {
            assert(p.contains(o[k]));
            assert(o.contains(p[k]));
            let x = p.index_of(o[k]);
            let y = o.index_of(p[k]);
            lemma_key_order(keys[o[k]], keys[p[k]]);
            lemma_key_order(keys[o[k]], keys[o[k]]);
            if x < k {
                assert(o[x] == o[k]);
                assert(before(keys, o[x], o[k]));
            }
            if y < k {
                assert(p[y] == p[k]);
                assert(before(keys, p[y], p[k]));
                lemma_key_order(keys[p[k]], keys[p[k]]);
            }
            assert(before(keys, p[k], p[x]));
            assert(before(keys, o[k], o[y]));
        }
        assert(o.take(n) =~= p.take(n));
    }
}

fn less(a: &(String, i64), b: &(String, i64)) -> (r: bool)
    ensures
        r == key_less((a.0@, a.1), (b.0@, b.1)),
{
    proof {
        lemma_lex_total(a.0@, b.0@);
    }
    str_less(a.0.as_str(), b.0.as_str()) || (a.0 == b.0 && a.1 < b.1)
}

/// The views of a list of indices.
pub open spec fn indices(v: Seq<usize>) -> Seq<int> {
    Seq::new(v.len(), |a: int| v[a] as int)
}

/// The sorted order of a list with the given keys.
pub fn order_by(keys: &Vec<(String, i64)>) -> (r: Vec<usize>)
    ensures
        is_order(key_views(keys@), indices(r@)),
{
    let ghost ks = key_views(keys@);
    let mut r: Vec<usize> = Vec::new();
    let mut n: usize = 0;
    assert(ks.take(0).len() == 0);
    while n < keys.len()
        invariant
            n <= keys@.len(),
            ks == key_views(keys@),
            is_order(ks.take(n as int), indices(r@)),
        decreases keys@.len() - n,
    {
        let ghost o = indices(r@);
        let ghost part = ks.take(n as int);
        let mut lo: usize = 0;
        let mut hi: usize = r.len();
        while lo < hi
            invariant
                n < keys@.len(),
                ks == key_views(keys@),
                part == ks.take(n as int),
                o == indices(r@),
                is_order(part, o),
                lo <= hi <= r@.len(),
                forall|j: int| 0 <= j < lo ==> !key_less(ks[n as int], ks[#[trigger] o[j]]),
                forall|j: int| hi <= j < o.len() ==> key_less(ks[n as int], ks[#[trigger] o[j]]),
            decreases hi - lo,
        {
            let mid: usize = lo + (hi - lo) / 2;
            assert(o[mid as int] == r@[mid as int]);
            assert(0 <= o[mid as int] < part.len());
            if less(&keys[n], &keys[r[mid]]) {
                proof {
                    assert forall|j: int| mid <= j < o.len() implies key_less(
                        ks[n as int],
                        ks[#[trigger] o[j]],
                    ) by {
                        if j > mid {
                            assert(before(part, o[mid as int], o[j]));
                            assert(part[o[mid as int]] == ks[o[mid as int]]);
                            assert(part[o[j]] == ks[o[j]]);
                            if key_less(ks[o[mid as int]], ks[o[j]]) {
                                lemma_key_transitive(ks[n as int], ks[o[mid as int]], ks[o[j]]);
                            }
                        }
                    }
                }
                hi = mid;
            } else {
                proof {
                    assert forall|j: int| 0 <= j <= mid implies !key_less(
                        ks[n as int],
                        ks[#[trigger] o[j]],
                    ) by {
                        if j < mid && key_less(ks[n as int], ks[o[j]]) {
                            assert(before(part, o[j], o[mid as int]));
                            assert(part[o[mid as int]] == ks[o[mid as int]]);
                            assert(part[o[j]] == ks[o[j]]);
                            if key_less(ks[o[j]], ks[o[mid as int]]) {
                                lemma_key_transitive(ks[n as int], ks[o[j]], ks[o[mid as int]]);
                            }
                        }
                    }
                }
                lo = mid + 1;
            }
        }
        r.insert(lo, n);
        proof {
            let q = indices(r@);
            let next = ks.take(n + 1);
            assert(q =~= o.insert(lo as int, n as int));
            assert forall|a: int| 0 <= a < q.len() implies 0 <= #[trigger] q[a] < next.len() by {
                if a < lo {
                    assert(q[a] == o[a]);
                } else if a > lo {
                    assert(q[a] == o[a - 1]);
                }
            }
            assert forall|a: int, b: int| 0 <= a < b < q.len() implies before(
                next,
                #[trigger] q[a],
                #[trigger] q[b],
            ) by {
                let x = if a < lo {
                    a
                } else {
                    a - 1
                };
                let y = if b < lo {
                    b
                } else {
                    b - 1
                };
                if a == lo {
                    assert(q[b] == o[y]);
                    assert(key_less(ks[n as int], ks[o[y]]));
                } else if b == lo {
                    assert(q[a] == o[x]);
                    assert(!key_less(ks[n as int], ks[o[x]]));
                    lemma_key_order(ks[n as int], ks[o[x]]);
                } else {
                    assert(q[a] == o[x] && q[b] == o[y]);
                    assert(before(part, o[x], o[y]));
                }
            }
            assert forall|i: int| 0 <= i < next.len() implies #[trigger] q.contains(i) by {
                if i == n {
                    assert(q[lo as int] == i);
                } else {
                    assert(o.contains(i));
                    let x = o.index_of(i);
                    if x < lo {
                        assert(q[x] == i);
                    } else {
                        assert(q[x + 1] == i);
                    }
                }
            }
        }
        n = n + 1;
    }
    assert(ks.take(n as int) =~= ks);
    r
}

} // verus!
