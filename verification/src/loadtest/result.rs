//! Latency statistics of a load test run.
//!
//! The statistics are taken over the sorted latencies: the smallest, the
//! largest, the integer mean, and the 95th and 99th percentiles, the
//! `p`-th percentile being the value at rank `ceil(n * p / 100)`.

use vstd::prelude::*;
use vstd::multiset::Multiset;

verus! {

/// Whether a sequence is sorted in non-decreasing order.
pub open spec fn sorted(s: Seq<u64>) -> bool {
    forall|i: int, j: int| 0 <= i <= j < s.len() ==> s[i] <= s[j]
}

/// `std`'s `slice::sort_unstable` on latencies: the documentation
/// promises the same elements in non-decreasing order.
#[verifier::external_body]
fn sort_latencies(v: &mut Vec<u64>)
    ensures
        final(v)@.to_multiset() == old(v)@.to_multiset(),
        sorted(final(v)@),
{
    v.sort_unstable();
}

/// The sum of a sequence.
pub open spec fn seq_sum(s: Seq<u64>) -> nat
    decreases s.len(),
{
    if s.len() == 0 {
        0
    } else {
        seq_sum(s.drop_last()) + s.last() as nat
    }
}

/// The rank (1-based, at least 1) of the `p`-th percentile among `n`
/// values: `ceil(n * p / 100)`.
pub open spec fn percentile_rank(n: nat, p: nat) -> nat {
    let r = (n * p + 99) / 100;
    if r == 0 {
        1
    } else {
        r
    }
}

/// The `p`-th percentile of sorted values; 0 without values.
pub open spec fn percentile(s: Seq<u64>, p: nat) -> u64 {
    if s.len() == 0 {
        0
    } else {
        let i = percentile_rank(s.len(), p) - 1;
        if i < s.len() {
            s[i]
        } else {
            s[s.len() - 1]
        }
    }
}

/// Latency statistics, in microseconds.
#[derive(Debug, Clone, Copy, PartialEq, Eq)]
pub struct LatencyStats {
    /// Smallest latency.
    pub min_latency_us: u64,
    /// Largest latency.
    pub max_latency_us: u64,
    /// Integer mean.
    pub avg_latency_us: u64,
    /// 95th percentile.
    pub p95_latency_us: u64,
    /// 99th percentile.
    pub p99_latency_us: u64,
}

/// The statistics of sorted latencies whose sum is `total`.
pub open spec fn stats_of(s: Seq<u64>, total: nat) -> LatencyStats {
    if s.len() == 0 {
        LatencyStats { min_latency_us: 0, max_latency_us: 0, avg_latency_us: 0, p95_latency_us: 0, p99_latency_us: 0 }
    } else {
        LatencyStats {
            min_latency_us: s[0],
            max_latency_us: s[s.len() - 1],
            avg_latency_us: (total / s.len()) as u64,
            p95_latency_us: percentile(s, 95),
            p99_latency_us: percentile(s, 99),
        }
    }
}

proof fn lemma_sum_bound(s: Seq<u64>)
    ensures
        seq_sum(s) <= s.len() * u64::MAX,
    decreases s.len(),
{
    if s.len() > 0 {
        lemma_sum_bound(s.drop_last());
    }
}

/// The statistics of a run's latencies (in any order). The sum of the
/// latencies must fit in `u64`.
pub fn latency_stats(latencies: Vec<u64>) -> (r: LatencyStats)
    requires
        seq_sum(latencies@) <= u64::MAX,
    ensures
        exists|s: Seq<u64>|
            s.to_multiset() == latencies@.to_multiset() && sorted(s) && r == #[trigger] stats_of(
                s,
                seq_sum(latencies@),
            ),
{
    let mut v = latencies;
    let ghost orig = v@;
    let n = v.len();
    let mut sum: u64 = 0;
    let mut i: usize = 0;
    while i < n
        invariant
            n == v@.len(),
            v@ == orig,
            i <= n,
            sum == seq_sum(v@.take(i as int)),
            seq_sum(v@) <= u64::MAX,
        decreases n - i,
    {
        proof {
            assert(v@.take(i + 1).drop_last() =~= v@.take(i as int));
            lemma_prefix_sum_le(v@, i + 1);
        }
        sum = sum + v[i];
        i = i + 1;
    }
    assert(v@.take(n as int) =~= v@);
    sort_latencies(&mut v);
    proof {
        v@.to_multiset_ensures();
        orig.to_multiset_ensures();
    }
    if n == 0 {
        assert(v@.len() == 0) by {
            assert(v@.to_multiset().len() == 0);
        }
        assert(stats_of(v@, seq_sum(orig)).min_latency_us == 0);
        return LatencyStats {
            min_latency_us: 0,
            max_latency_us: 0,
            avg_latency_us: 0,
            p95_latency_us: 0,
            p99_latency_us: 0,
        };
    }
    assert(v@.len() == n) by {
        assert(v@.to_multiset().len() == orig.to_multiset().len());
    }
    let avg = sum / (n as u64);
    let p95 = v[percentile_index(n, 95)];
    let p99 = v[percentile_index(n, 99)];
    let r = LatencyStats {
        min_latency_us: v[0],
        max_latency_us: v[n - 1],
        avg_latency_us: avg,
        p95_latency_us: p95,
        p99_latency_us: p99,
    };
    assert(r == stats_of(v@, seq_sum(orig)));
    r
}

proof fn lemma_prefix_sum_le(s: Seq<u64>, k: int)
    requires
        0 <= k <= s.len(),
    ensures
        seq_sum(s.take(k)) <= seq_sum(s),
    decreases s.len() - k,
{
    if k < s.len() {
        lemma_prefix_sum_le(s, k + 1);
        assert(s.take(k + 1).drop_last() =~= s.take(k));
    } else {
        assert(s.take(k) =~= s);
    }
}

fn percentile_index(n: usize, p: usize) -> (i: usize)
    requires
        n > 0,
        p <= 100,
    ensures
        i < n,
        i == (if percentile_rank(n as nat, p as nat) - 1 < n {
            percentile_rank(n as nat, p as nat) - 1
        } else {
            n - 1
        }),
{
    assert((n as u128) * (p as u128) <= 18446744073709551615u128 * 100) by (nonlinear_arith)
        requires
            n <= 18446744073709551615u128,
            p <= 100,
    ;
    let r: u128 = ((n as u128) * (p as u128) + 99) / 100;
    let r: u128 = if r == 0 { 1 } else { r };
    if r - 1 < n as u128 {
        (r - 1) as usize
    } else {
        n - 1
    }
}

/// Over sorted latencies, min <= p95 <= p99 <= max.
pub proof fn lemma_stats_ordered(s: Seq<u64>, total: nat)
    requires
        sorted(s),
    ensures
        ({
            let st = stats_of(s, total);
            st.min_latency_us <= st.p95_latency_us <= st.p99_latency_us <= st.max_latency_us
        }),
{
    if s.len() > 0 {
        let n = s.len();
        assert((n * 95 + 99) / 100 <= (n * 99 + 99) / 100) by (nonlinear_arith)
            requires
                n >= 1,
        ;
    }
}

} // verus!
