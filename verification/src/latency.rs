//! Latency samples and the order statistics of a trial's latencies
//! (RFC 2544 §26.2).

use vstd::prelude::*;
use std::time::{Duration, Instant};
use crate::sorting::{ascending_u64, is_ascending_u64, lemma_ascending_u64_facts, sort_u64};

verus! {

/// A single latency measurement.
#[derive(Debug, Clone, Copy)]
pub struct LatencySample {
    pub latency_us: u64,
    pub timestamp: Instant,
}

/// The latency samples of one trial at one frame size.
#[derive(Debug)]
pub struct LatencyHistogram {
    pub samples: Vec<LatencySample>,
    pub frame_size: u32,
    pub duration: Duration,
}

/// The latencies of a sequence of samples, in microseconds.
pub open spec fn latencies_of(samples: Seq<LatencySample>) -> Seq<u64> {
    samples.map_values(|s: LatencySample| s.latency_us)
}

/// The sum of a sequence of latencies.
pub open spec fn latency_sum(s: Seq<u64>) -> nat
    decreases s.len(),
{
    if s.len() == 0 {
        0
    } else {
        latency_sum(s.drop_last()) + s.last() as nat
    }
}

/// The latency at `rank` in ascending order, where ranks past the end
/// stand for the largest latency.
pub open spec fn latency_at_rank(s: Seq<u64>, rank: int) -> u64 {
    let sorted = ascending_u64(s);
    if rank < sorted.len() {
        sorted[rank]
    } else {
        sorted[sorted.len() - 1]
    }
}

/// The first, second and third quartiles of a non-empty sequence of
/// latencies: the latencies at ranks n/4, n/2 and 3n/4 in ascending order.
pub open spec fn latency_quartiles(s: Seq<u64>) -> (u64, u64, u64) {
    let n = s.len() as int;
    let sorted = ascending_u64(s);
    (sorted[n / 4], sorted[n / 2], sorted[3 * n / 4])
}

impl Clone for LatencyHistogram {
    /// A copy with the same samples, frame size and duration.
    fn clone(&self) -> (c: Self)
        ensures
            c.samples@ == self.samples@,
            c.frame_size == self.frame_size,
            c.duration == self.duration,
    {
        let mut samples: Vec<LatencySample> = Vec::new();
        let mut i: usize = 0;
        while i < self.samples.len()
            invariant
                i <= self.samples@.len(),
                samples@ =~= self.samples@.take(i as int),
            decreases self.samples@.len() - i,
        {
            let s = self.samples[i];
            samples.push(LatencySample { latency_us: s.latency_us, timestamp: s.timestamp });
            i = i + 1;
        }
        assert(self.samples@.take(self.samples@.len() as int) =~= self.samples@);
        LatencyHistogram { samples, frame_size: self.frame_size, duration: self.duration }
    }
}

impl LatencyHistogram {
    /// The latencies of the samples, in the order they were taken.
    pub open spec fn latencies(&self) -> Seq<u64> {
        latencies_of(self.samples@)
    }

    /// The latencies, in the order they were taken.
    fn latency_values(&self) -> (r: Vec<u64>)
        ensures
            r@ == self.latencies(),
    {
        let mut v: Vec<u64> = Vec::new();
        let mut i: usize = 0;
        while i < self.samples.len()
            invariant
                i <= self.samples@.len(),
                v@ =~= self.latencies().take(i as int),
            decreases self.samples@.len() - i,
        {
            v.push(self.samples[i].latency_us);
            i = i + 1;
        }
        assert(self.latencies().take(self.samples@.len() as int) =~= self.latencies());
        v
    }

    /// The smallest latency, or `None` when there are no samples.
    pub fn min(&self) -> (r: Option<u64>)
        ensures
            (r is None) == (self.samples@.len() == 0),
            r matches Some(m) ==> self.latencies().contains(m) && forall|i: int|
                0 <= i < self.samples@.len() ==> m <= #[trigger] self.latencies()[i],
    {
        if self.samples.len() == 0 {
            return None;
        }
        let mut m = self.samples[0].latency_us;
        assert(self.latencies()[0] == m);
        let mut i: usize = 1;
        while i < self.samples.len()
            invariant
                1 <= i <= self.samples@.len(),
                self.latencies().contains(m),
                forall|j: int| 0 <= j < i ==> m <= #[trigger] self.latencies()[j],
            decreases self.samples@.len() - i,
        {
            if self.samples[i].latency_us < m {
                m = self.samples[i].latency_us;
                assert(self.latencies()[i as int] == m);
            }
            i = i + 1;
        }
        assert(self.latencies()[0] == self.samples@[0].latency_us);
        Some(m)
    }

    /// The largest latency, or `None` when there are no samples.
    pub fn max(&self) -> (r: Option<u64>)
        ensures
            (r is None) == (self.samples@.len() == 0),
            r matches Some(m) ==> self.latencies().contains(m) && forall|i: int|
                0 <= i < self.samples@.len() ==> #[trigger] self.latencies()[i] <= m,
    {
        if self.samples.len() == 0 {
            return None;
        }
        let mut m = self.samples[0].latency_us;
        assert(self.latencies()[0] == m);
        let mut i: usize = 1;
        while i < self.samples.len()
            invariant
                1 <= i <= self.samples@.len(),
                self.latencies().contains(m),
                forall|j: int| 0 <= j < i ==> #[trigger] self.latencies()[j] <= m,
            decreases self.samples@.len() - i,
        {
            if self.samples[i].latency_us > m {
                m = self.samples[i].latency_us;
                assert(self.latencies()[i as int] == m);
            }
            i = i + 1;
        }
        assert(self.latencies()[0] == self.samples@[0].latency_us);
        Some(m)
    }

    /// The sum of the latencies, or `None` when it does not fit in a `u64`.
    pub fn total_latency_us(&self) -> (r: Option<u64>)
        ensures
            r == if latency_sum(self.latencies()) <= u64::MAX {
                Some(latency_sum(self.latencies()) as u64)
            } else {
                None::<u64>
            },
    {
        let mut sum: u64 = 0;
        let mut i: usize = 0;
        while i < self.samples.len()
            invariant
                i <= self.samples@.len(),
                sum == latency_sum(self.latencies().take(i as int)),
            decreases self.samples@.len() - i,
        {
            let x = self.samples[i].latency_us;
            assert(self.latencies().take(i + 1).drop_last() =~= self.latencies().take(i as int));
            proof {
                lemma_latency_sum_prefix_bound(self.latencies(), i + 1);
            }
            if sum > u64::MAX - x {
                proof {
                    lemma_latency_sum_prefix_bound(self.latencies(), self.samples@.len() as int);
                    assert(self.latencies().take(self.samples@.len() as int) =~= self.latencies());
                }
                return None;
            }
            sum = sum + x;
            i = i + 1;
        }
        assert(self.latencies().take(self.samples@.len() as int) =~= self.latencies());
        Some(sum)
    }

    /// The latency at `rank` in ascending order (ranks past the end give the
    /// largest latency), or `None` when there are no samples. A percentile
    /// `p` of `n` samples is the latency at rank `p / 100 * n`, rounded down.
    pub fn latency_at(&self, rank: usize) -> (r: Option<u64>)
        ensures
            r == if self.samples@.len() == 0 {
                None::<u64>
            } else {
                Some(latency_at_rank(self.latencies(), rank as int))
            },
            r matches Some(v) ==> {
                let n = self.samples@.len() as int;
                let k = if rank < n { rank as int } else { n - 1 };
                count_below(self.latencies(), v) <= k < count_at_most(self.latencies(), v)
            },
    {
        if self.samples.len() == 0 {
            return None;
        }
        let sorted = sort_u64(&self.latency_values());
        proof {
            lemma_ascending_u64_facts(self.latencies());
        }
        let n = sorted.len();
        let idx = if rank < n - 1 {
            rank
        } else {
            n - 1
        };
        proof {
            if rank >= n - 1 && rank < n {
                assert(idx == rank);
            }
            lemma_rank_counts(self.latencies(), idx as int);
        }
        Some(sorted[idx])
    }

    /// The first, second and third quartiles of the latencies; all zero when
    /// there are no samples.
    pub fn quartiles(&self) -> (r: (u64, u64, u64))
        ensures
            r == if self.samples@.len() == 0 {
                (0u64, 0u64, 0u64)
            } else {
                latency_quartiles(self.latencies())
            },
            self.samples@.len() > 0 ==> {
                let n = self.samples@.len() as int;
                let sorted = ascending_u64(self.latencies());
                &&& r.0 == sorted[n / 4]
                &&& r.1 == sorted[n / 2]
                &&& r.2 == sorted[(3 * n) / 4]
            },
            self.samples@.len() > 0 ==> {
                let n = self.samples@.len() as int;
                let lat = self.latencies();
                &&& count_below(lat, r.0) <= n / 4 < count_at_most(lat, r.0)
                &&& count_below(lat, r.1) <= n / 2 < count_at_most(lat, r.1)
                &&& count_below(lat, r.2) <= (3 * n) / 4 < count_at_most(lat, r.2)
            },
    {
        if self.samples.len() == 0 {
            return (0, 0, 0);
        }
        let sorted = sort_u64(&self.latency_values());
        proof {
            lemma_ascending_u64_facts(self.latencies());
        }
        let n = sorted.len();
        let q1 = n / 4;
        let q2 = n / 2;
        // 3n/4, without overflow: n - ceil(n/4)
        let q3 = n - n / 4 - if n % 4 == 0 {
            0
        } else {
            1
        };
        assert(q3 == 3 * n / 4);
        proof {
            lemma_rank_counts(self.latencies(), 0);
        }
        (sorted[q1], sorted[q2], sorted[q3])
    }
}

/// The sum of a prefix of latencies is at most the sum of all of them.
proof fn lemma_latency_sum_prefix_bound(s: Seq<u64>, k: int)
    requires
        0 <= k <= s.len(),
    ensures
        latency_sum(s.take(k)) <= latency_sum(s),
    decreases s.len(),
{
    if k < s.len() {
        assert(s.drop_last().take(k) =~= s.take(k));
        lemma_latency_sum_prefix_bound(s.drop_last(), k);
    } else {
        assert(s.take(k) =~= s);
    }
}

/// The number of latencies in `s` that satisfy `p`.
pub open spec fn count_where(s: Seq<u64>, p: spec_fn(u64) -> bool) -> nat
    decreases s.len(),
{
    if s.len() == 0 {
        0
    } else {
        count_where(s.drop_last(), p) + if p(s.last()) {
            1nat
        } else {
            0nat
        }
    }
}

/// The number of latencies in `s` below `v`.
pub open spec fn count_below(s: Seq<u64>, v: u64) -> nat {
    count_where(s, |x: u64| x < v)
}

/// The number of latencies in `s` at most `v`.
pub open spec fn count_at_most(s: Seq<u64>, v: u64) -> nat {
    count_where(s, |x: u64| x <= v)
}

/// Removing one element takes its own count out of a count.
proof fn lemma_count_remove(s: Seq<u64>, p: spec_fn(u64) -> bool, j: int)
    requires
        0 <= j < s.len(),
    ensures
        count_where(s, p) == count_where(s.remove(j), p) + if p(s[j]) {
            1nat
        } else {
            0nat
        },
    decreases s.len(),
{
    if j == s.len() - 1 {
        assert(s.remove(j) =~= s.drop_last());
    } else {
        let r = s.remove(j);
        assert(r.drop_last() =~= s.drop_last().remove(j));
        assert(r.last() == s.last());
        lemma_count_remove(s.drop_last(), p, j);
    }
}

/// Counts do not depend on the order of the elements.
proof fn lemma_count_permutation(s: Seq<u64>, t: Seq<u64>, p: spec_fn(u64) -> bool)
    requires
        s.to_multiset() == t.to_multiset(),
    ensures
        count_where(s, p) == count_where(t, p),
    decreases s.len(),
{
    s.to_multiset_ensures();
    t.to_multiset_ensures();
    if s.len() == 0 {
        assert(t.len() == 0);
    } else {
        let x = s.last();
        assert(s.contains(x)) by {
            assert(s[s.len() - 1] == x);
        }
        assert(t.to_multiset().count(x) > 0);
        assert(t.contains(x));
        let j = choose|j: int| 0 <= j < t.len() && t[j] == x;
        let d = s.drop_last();
        assert(s.remove(s.len() - 1) =~= d);
        assert(d.to_multiset() == s.to_multiset().remove(x));
        assert(t.remove(j).to_multiset() == t.to_multiset().remove(x));
        lemma_count_permutation(d, t.remove(j), p);
        lemma_count_remove(t, p, j);
    }
}

/// When no element from index `m` on satisfies `p`, at most `m` do.
proof fn lemma_count_at_most_prefix(s: Seq<u64>, p: spec_fn(u64) -> bool, m: int)
    requires
        0 <= m <= s.len(),
        forall|i: int| m <= i < s.len() ==> !p(#[trigger] s[i]),
    ensures
        count_where(s, p) <= m,
    decreases s.len(),
{
    if s.len() > 0 {
        let d = s.drop_last();
        if m == s.len() {
            lemma_count_at_most_prefix(d, p, m - 1);
        } else {
            assert(!p(s[s.len() - 1]));
            assert forall|i: int| m <= i < d.len() implies !p(#[trigger] d[i]) by {
                assert(d[i] == s[i]);
            }
            lemma_count_at_most_prefix(d, p, m);
        }
    }
}

/// When the first `m` elements satisfy `p`, at least `m` do.
proof fn lemma_count_at_least_prefix(s: Seq<u64>, p: spec_fn(u64) -> bool, m: int)
    requires
        0 <= m <= s.len(),
        forall|i: int| 0 <= i < m ==> p(#[trigger] s[i]),
    ensures
        count_where(s, p) >= m,
    decreases s.len(),
{
    if s.len() > 0 && m > 0 {
        let d = s.drop_last();
        if m == s.len() {
            assert(p(s[s.len() - 1]));
            assert forall|i: int| 0 <= i < m - 1 implies p(#[trigger] d[i]) by {
                assert(d[i] == s[i]);
            }
            lemma_count_at_least_prefix(d, p, m - 1);
        } else {
            assert forall|i: int| 0 <= i < m implies p(#[trigger] d[i]) by {
                assert(d[i] == s[i]);
            }
            lemma_count_at_least_prefix(d, p, m);
        }
    }
}

/// Law: the latency at rank `k` has at most `k` latencies below it and more
/// than `k` at or below it, counted over the samples in the order they were
/// taken; in particular the quartiles are the latencies of rank `n / 4`,
/// `n / 2` and `3n / 4` in this sense.
pub proof fn lemma_rank_counts(s: Seq<u64>, k: int)
    requires
        0 <= k < s.len(),
    ensures
        count_below(s, latency_at_rank(s, k)) <= k < count_at_most(s, latency_at_rank(s, k)),
        count_below(s, latency_quartiles(s).0) <= s.len() / 4 < count_at_most(
            s,
            latency_quartiles(s).0,
        ),
        count_below(s, latency_quartiles(s).1) <= s.len() / 2 < count_at_most(
            s,
            latency_quartiles(s).1,
        ),
        count_below(s, latency_quartiles(s).2) <= (3 * s.len()) / 4 < count_at_most(
            s,
            latency_quartiles(s).2,
        ),
{
    lemma_rank_counts_at(s, k);
    let n = s.len() as int;
    lemma_ascending_u64_facts(s);
    lemma_rank_counts_at(s, n / 4);
    lemma_rank_counts_at(s, n / 2);
    lemma_rank_counts_at(s, (3 * n) / 4);
}

/// The element of the ascending order at index `k` has at most `k`
/// elements below it and more than `k` at or below it.
proof fn lemma_rank_counts_at(s: Seq<u64>, k: int)
    requires
        0 <= k < s.len(),
    ensures
        count_below(s, ascending_u64(s)[k]) <= k < count_at_most(s, ascending_u64(s)[k]),
{
    lemma_ascending_u64_facts(s);
    let t = ascending_u64(s);
    let v = t[k];
    let below = |x: u64| x < v;
    let at_most = |x: u64| x <= v;
    lemma_count_permutation(s, t, below);
    lemma_count_permutation(s, t, at_most);
    assert forall|i: int| k <= i < t.len() implies !below(#[trigger] t[i]) by {
        if i > k {
            assert(t[k] <= t[i]);
        }
    }
    lemma_count_at_most_prefix(t, below, k);
    assert forall|i: int| 0 <= i < k + 1 implies at_most(#[trigger] t[i]) by {
        if i < k {
            assert(t[i] <= t[k]);
        }
    }
    lemma_count_at_least_prefix(t, at_most, k + 1);
}

/// Law: the quartiles are ordered; the latency at rank 0 is the smallest
/// latency and the one at the last rank the largest; ranked latencies grow
/// with the rank.
pub proof fn lemma_order_statistics(s: Seq<u64>, r1: int, r2: int)
    requires
        s.len() > 0,
        0 <= r1 <= r2,
    ensures
        latency_quartiles(s).0 <= latency_quartiles(s).1 <= latency_quartiles(s).2,
        forall|i: int| 0 <= i < s.len() ==> latency_at_rank(s, 0) <= #[trigger] s[i],
        forall|i: int| 0 <= i < s.len() ==> #[trigger] s[i] <= latency_at_rank(s, s.len() - 1),
        latency_at_rank(s, r1) <= latency_at_rank(s, r2),
{
    lemma_ascending_u64_facts(s);
    let t = ascending_u64(s);
    let n = s.len() as int;
    assert(is_ascending_u64(t));
    assert(t.len() == n);
    assert forall|i: int| 0 <= i < n implies latency_at_rank(s, 0) <= #[trigger] s[i]
        && s[i] <= latency_at_rank(s, n - 1) by {
        s.to_multiset_ensures();
        t.to_multiset_ensures();
        assert(s.contains(s[i]));
        assert(s.to_multiset().count(s[i]) > 0);
        assert(t.to_multiset().count(s[i]) > 0);
        assert(t.contains(s[i]));
        let k = choose|k: int| 0 <= k < t.len() && t[k] == s[i];
        assert(t[0] <= t[k]);
        assert(t[k] <= t[n - 1]);
    }
}

} // verus!
