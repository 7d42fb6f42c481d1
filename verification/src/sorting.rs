//! Sorting of frame sizes and latency samples into ascending order.
//!
//! The ascending order of a sequence is its unique sorted permutation; the
//! sorts here produce it by inserting each element after all elements not
//! larger than it.

use vstd::prelude::*;
use vstd::relations::{sorted_by, total_ordering};

verus! {

broadcast use vstd::seq_lib::group_to_multiset_ensures, vstd::multiset::group_multiset_axioms;

/// `<=` on `u64`, as a relation.
pub open spec fn leq_u64() -> spec_fn(u64, u64) -> bool {
    |a: u64, b: u64| a <= b
}

/// `<=` on `u32`, as a relation.
pub open spec fn leq_u32() -> spec_fn(u32, u32) -> bool {
    |a: u32, b: u32| a <= b
}

/// The elements of `s` in ascending order.
pub open spec fn ascending_u64(s: Seq<u64>) -> Seq<u64> {
    s.sort_by(leq_u64())
}

/// The elements of `s` in ascending order.
pub open spec fn ascending_u32(s: Seq<u32>) -> Seq<u32> {
    s.sort_by(leq_u32())
}

/// Whether `s` is in ascending order.
pub open spec fn is_ascending_u64(s: Seq<u64>) -> bool {
    forall|i: int, j: int| 0 <= i < j < s.len() ==> s[i] <= s[j]
}

/// Whether `s` is in ascending order.
pub open spec fn is_ascending_u32(s: Seq<u32>) -> bool {
    forall|i: int, j: int| 0 <= i < j < s.len() ==> s[i] <= s[j]
}

/// Two sequences that are sorted by the same total order and hold the same
/// elements are equal: a sorted permutation is unique.
pub proof fn lemma_sorted_permutation_unique<A>(a: Seq<A>, b: Seq<A>, leq: spec_fn(A, A) -> bool)
    requires
        total_ordering(leq),
        sorted_by(a, leq),
        sorted_by(b, leq),
        a.to_multiset() == b.to_multiset(),
    ensures
        a == b,
    decreases a.len(),
{
    a.to_multiset_ensures();
    b.to_multiset_ensures();
    if a.len() == 0 {
        assert(b.len() == 0);
        assert(a =~= b);
    } else {
        assert(b.len() == a.len());
        let x = a[0];
        let y = b[0];
        assert(a.contains(x));
        assert(b.to_multiset().count(x) > 0);
        assert(b.contains(x));
        let j = choose|j: int| 0 <= j < b.len() && b[j] == x;
        if j > 0 {
            assert(leq(b[0], b[j]));
        } else {
            assert(leq(y, y));
        }
        assert(leq(y, x));
        assert(b.contains(y));
        assert(a.to_multiset().count(y) > 0);
        assert(a.contains(y));
        let k = choose|k: int| 0 <= k < a.len() && a[k] == y;
        if k > 0 {
            assert(leq(a[0], a[k]));
        } else {
            assert(leq(x, x));
        }
        assert(leq(x, y));
        assert(x == y);
        let a1 = a.drop_first();
        let b1 = b.drop_first();
        assert(a.remove(0) =~= a1);
        assert(b.remove(0) =~= b1);
        assert(a1.to_multiset() == a.to_multiset().remove(x));
        assert(b1.to_multiset() == b.to_multiset().remove(y));
        assert(sorted_by(a1, leq)) by {
            assert forall|i: int, l: int| 0 <= i < l < a1.len() implies #[trigger] leq(
                a1[i],
                a1[l],
            ) by {
                assert(leq(a[i + 1], a[l + 1]));
            }
        }
        assert(sorted_by(b1, leq)) by {
            assert forall|i: int, l: int| 0 <= i < l < b1.len() implies #[trigger] leq(
                b1[i],
                b1[l],
            ) by {
                assert(leq(b[i + 1], b[l + 1]));
            }
        }
        lemma_sorted_permutation_unique(a1, b1, leq);
        assert(a =~= b) by {
            assert forall|i: int| 0 <= i < a.len() implies a[i] == b[i] by {
                if i > 0 {
                    assert(a[i] == a1[i - 1]);
                    assert(b[i] == b1[i - 1]);
                }
            }
        }
    }
}

/// A sequence of `u64` in ascending order with the same elements as `s` is
/// `ascending_u64(s)`.
pub proof fn lemma_ascending_u64(s: Seq<u64>, t: Seq<u64>)
    requires
        is_ascending_u64(t),
        t.to_multiset() == s.to_multiset(),
    ensures
        t == ascending_u64(s),
{
    let leq = leq_u64();
    assert(total_ordering(leq));
    s.lemma_sort_by_ensures(leq);
    assert(sorted_by(t, leq)) by {
        assert forall|i: int, j: int| 0 <= i < j < t.len() implies #[trigger] leq(t[i], t[j]) by {}
    }
    lemma_sorted_permutation_unique(t, ascending_u64(s), leq);
}

/// A sequence of `u32` in ascending order with the same elements as `s` is
/// `ascending_u32(s)`.
pub proof fn lemma_ascending_u32(s: Seq<u32>, t: Seq<u32>)
    requires
        is_ascending_u32(t),
        t.to_multiset() == s.to_multiset(),
    ensures
        t == ascending_u32(s),
{
    let leq = leq_u32();
    assert(total_ordering(leq));
    s.lemma_sort_by_ensures(leq);
    assert(sorted_by(t, leq)) by {
        assert forall|i: int, j: int| 0 <= i < j < t.len() implies #[trigger] leq(t[i], t[j]) by {}
    }
    lemma_sorted_permutation_unique(t, ascending_u32(s), leq);
}

/// `ascending_u64(s)` is in ascending order and holds the elements of `s`.
pub proof fn lemma_ascending_u64_facts(s: Seq<u64>)
    ensures
        is_ascending_u64(ascending_u64(s)),
        ascending_u64(s).to_multiset() == s.to_multiset(),
        ascending_u64(s).len() == s.len(),
{
    let leq = leq_u64();
    assert(total_ordering(leq));
    s.lemma_sort_by_ensures(leq);
    let t = ascending_u64(s);
    t.to_multiset_ensures();
    s.to_multiset_ensures();
    assert forall|i: int, j: int| 0 <= i < j < t.len() implies t[i] <= t[j] by {
        assert(leq(t[i], t[j]));
    }
}

/// `ascending_u32(s)` is in ascending order and holds the elements of `s`.
pub proof fn lemma_ascending_u32_facts(s: Seq<u32>)
    ensures
        is_ascending_u32(ascending_u32(s)),
        ascending_u32(s).to_multiset() == s.to_multiset(),
        ascending_u32(s).len() == s.len(),
{
    let leq = leq_u32();
    assert(total_ordering(leq));
    s.lemma_sort_by_ensures(leq);
    let t = ascending_u32(s);
    t.to_multiset_ensures();
    s.to_multiset_ensures();
    assert forall|i: int, j: int| 0 <= i < j < t.len() implies t[i] <= t[j] by {
        assert(leq(t[i], t[j]));
    }
}

/// Inserting an element into a sequence adds it to the sequence's multiset.
proof fn lemma_insert_multiset<A>(s: Seq<A>, pos: int, x: A)
    requires
        0 <= pos <= s.len(),
    ensures
        s.insert(pos, x).to_multiset() == s.to_multiset().insert(x),
{
    let t = s.insert(pos, x);
    s.insert_ensures(pos, x);
    t.to_multiset_ensures();
    assert(t.remove(pos) =~= s);
    assert(t[pos] == x);
    assert(t.to_multiset().count(x) > 0) by {
        assert(t.contains(x));
    }
    assert(t.to_multiset() =~= s.to_multiset().insert(x));
}

/// Returns the elements of `v` in ascending order.
pub fn sort_u64(v: &Vec<u64>) -> (r: Vec<u64>)
    ensures
        r@ == ascending_u64(v@),
{
    let mut out: Vec<u64> = Vec::new();
    let mut i: usize = 0;
    while i < v.len()
        invariant
            i <= v@.len(),
            is_ascending_u64(out@),
            out@.to_multiset() == v@.take(i as int).to_multiset(),
        decreases v@.len() - i,
    {
        let x = v[i];
        let mut p: usize = 0;
        while p < out.len() && out[p] <= x
            invariant
                p <= out@.len(),
                forall|k: int| 0 <= k < p ==> out@[k] <= x,
            decreases out@.len() - p,
        {
            p = p + 1;
        }
        let ghost before = out@;
        out.insert(p, x);
        proof {
            before.insert_ensures(p as int, x);
            lemma_insert_multiset(before, p as int, x);
            assert(v@.take(i + 1) =~= v@.take(i as int).push(x));
            v@.take(i as int).to_multiset_ensures();
            assert forall|a: int, b: int| 0 <= a < b < out@.len() implies out@[a] <= out@[b] by {
                if b < p {
                } else if b == p {
                    assert(out@[a] == before[a]);
                } else if a < p {
                    assert(out@[b] == before[b - 1]);
                    assert(out@[a] == before[a]);
                } else if a == p {
                    assert(out@[b] == before[b - 1]);
                    if p < b - 1 {
                        assert(before[p as int] > x);
                        assert(before[p as int] <= before[b - 1]);
                    } else {
                        assert(before[p as int] > x);
                    }
                } else {
                    assert(out@[b] == before[b - 1]);
                    assert(out@[a] == before[a - 1]);
                }
            }
        }
        i = i + 1;
    }
    proof {
        assert(v@.take(v@.len() as int) =~= v@);
        lemma_ascending_u64(v@, out@);
    }
    out
}

/// Returns the elements of `v` in ascending order.
pub fn sort_u32(v: &Vec<u32>) -> (r: Vec<u32>)
    ensures
        r@ == ascending_u32(v@),
{
    let mut out: Vec<u32> = Vec::new();
    let mut i: usize = 0;
    while i < v.len()
        invariant
            i <= v@.len(),
            is_ascending_u32(out@),
            out@.to_multiset() == v@.take(i as int).to_multiset(),
        decreases v@.len() - i,
    {
        let x = v[i];
        let mut p: usize = 0;
        while p < out.len() && out[p] <= x
            invariant
                p <= out@.len(),
                forall|k: int| 0 <= k < p ==> out@[k] <= x,
            decreases out@.len() - p,
        {
            p = p + 1;
        }
        let ghost before = out@;
        out.insert(p, x);
        proof {
            before.insert_ensures(p as int, x);
            lemma_insert_multiset(before, p as int, x);
            assert(v@.take(i + 1) =~= v@.take(i as int).push(x));
            v@.take(i as int).to_multiset_ensures();
            assert forall|a: int, b: int| 0 <= a < b < out@.len() implies out@[a] <= out@[b] by {
                if b < p {
                } else if b == p {
                    assert(out@[a] == before[a]);
                } else if a < p {
                    assert(out@[b] == before[b - 1]);
                    assert(out@[a] == before[a]);
                } else if a == p {
                    assert(out@[b] == before[b - 1]);
                    if p < b - 1 {
                        assert(before[p as int] > x);
                        assert(before[p as int] <= before[b - 1]);
                    } else {
                        assert(before[p as int] > x);
                    }
                } else {
                    assert(out@[b] == before[b - 1]);
                    assert(out@[a] == before[a - 1]);
                }
            }
        }
        i = i + 1;
    }
    proof {
        assert(v@.take(v@.len() as int) =~= v@);
        lemma_ascending_u32(v@, out@);
    }
    out
}

} // verus!
