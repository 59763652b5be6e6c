//! The gossip propagation latency histogram: twelve fixed upper-bound
//! buckets plus an overflow bucket, and percentile reporting over the
//! bucket counts.

use vstd::prelude::*;

verus! {

/// The number of bounded buckets.
pub const NUM_BOUNDS: usize = 12;

/// The number of buckets including the overflow bucket.
pub const NUM_BUCKETS: usize = 13;

/// The nominal upper bound reported for the overflow bucket.
pub const OVERFLOW_BOUND_MS: u64 = 10000;

/// The fixed upper edges of the bounded buckets, in milliseconds.
pub open spec fn spec_bounds() -> Seq<u64> {
    seq![5u64, 10u64, 25u64, 50u64, 100u64, 150u64, 200u64, 300u64, 500u64, 1000u64, 2000u64, 5000u64]
}

/// The bucket a latency value falls into: the first bucket whose upper
/// bound is at least the value, or the overflow bucket.
pub open spec fn bucket_index(ms: u64) -> int {
    if ms <= 5 {
        0
    } else if ms <= 10 {
        1
    } else if ms <= 25 {
        2
    } else if ms <= 50 {
        3
    } else if ms <= 100 {
        4
    } else if ms <= 150 {
        5
    } else if ms <= 200 {
        6
    } else if ms <= 300 {
        7
    } else if ms <= 500 {
        8
    } else if ms <= 1000 {
        9
    } else if ms <= 2000 {
        10
    } else if ms <= 5000 {
        11
    } else {
        12
    }
}

/// The upper bound reported for bucket `i`.
pub open spec fn bound_of(i: int) -> u64 {
    if i <= 0 {
        5
    } else if i == 1 {
        10
    } else if i == 2 {
        25
    } else if i == 3 {
        50
    } else if i == 4 {
        100
    } else if i == 5 {
        150
    } else if i == 6 {
        200
    } else if i == 7 {
        300
    } else if i == 8 {
        500
    } else if i == 9 {
        1000
    } else if i == 10 {
        2000
    } else if i == 11 {
        5000
    } else {
        OVERFLOW_BOUND_MS
    }
}

/// The fixed edges element by element.
proof fn lemma_bounds_values()
    ensures
        forall|i: int| 0 <= i < 12 ==> #[trigger] spec_bounds()[i] == bound_of(i),
{
    assert forall|i: int| 0 <= i < 12 implies #[trigger] spec_bounds()[i] == bound_of(i) by {
        if i == 0 {
            assert(spec_bounds()[0] == 5);
        } else if i == 1 {
            assert(spec_bounds()[1] == 10);
        } else if i == 2 {
            assert(spec_bounds()[2] == 25);
        } else if i == 3 {
            assert(spec_bounds()[3] == 50);
        } else if i == 4 {
            assert(spec_bounds()[4] == 100);
        } else if i == 5 {
            assert(spec_bounds()[5] == 150);
        } else if i == 6 {
            assert(spec_bounds()[6] == 200);
        } else if i == 7 {
            assert(spec_bounds()[7] == 300);
        } else if i == 8 {
            assert(spec_bounds()[8] == 500);
        } else if i == 9 {
            assert(spec_bounds()[9] == 1000);
        } else if i == 10 {
            assert(spec_bounds()[10] == 2000);
        } else {
            assert(spec_bounds()[11] == 5000);
        }
    }
}

/// The sum of a sequence of counters.
pub open spec fn sum_u64(s: Seq<u64>) -> int
    decreases s.len(),
{
    if s.len() == 0 {
        0
    } else {
        sum_u64(s.drop_last()) + s.last()
    }
}

/// The count accumulated over the first `i` buckets.
pub open spec fn cum(s: Seq<u64>, i: int) -> int {
    sum_u64(s.subrange(0, i))
}

/// The percentile target: the number of samples that must be covered,
/// `ceil(total * pct / 100)`.
pub open spec fn target_of(total: int, pct: int) -> int {
    (total * pct + 99) / 100
}

/// Bucket `i` is where the running count first reaches `target`.
pub open spec fn crossing_at(s: Seq<u64>, target: int, i: int) -> bool {
    0 <= i < s.len() && cum(s, i + 1) >= target && cum(s, i) < target
}

/// How one observation transforms the histogram: the bucket the value
/// falls into steps by one, as does the total; a histogram at the
/// counter ceiling stops counting.
pub open spec fn observed_rel(pre: LatencyHistogram, post: LatencyHistogram, ms: u64) -> bool {
    &&& post.bounds@ == pre.bounds@
    &&& pre.total < u64::MAX ==> {
        &&& post.counts@ == pre.counts@.update(
            bucket_index(ms),
            (pre.counts@[bucket_index(ms)] + 1) as u64,
        )
        &&& post.total == pre.total + 1
    }
    &&& pre.total == u64::MAX ==> post == pre
}

/// The latency percentiles reported by the control plane.
#[derive(Debug, Clone, Copy, PartialEq, Eq, Structural)]
pub struct LatencyPercentiles {
    pub p50_ms: u64,
    pub p90_ms: u64,
    pub p99_ms: u64,
    pub samples: u64,
}

/// A histogram of observed propagation latencies.
#[derive(Debug)]
pub struct LatencyHistogram {
    pub bounds: Vec<u64>,
    pub counts: Vec<u64>,
    pub total: u64,
}

proof fn lemma_sum_nonneg(s: Seq<u64>)
    ensures
        sum_u64(s) >= 0,
    decreases s.len(),
{
    if s.len() > 0 {
        lemma_sum_nonneg(s.drop_last());
    }
}

/// One step of the running count: the next bucket joins the sum.
proof fn lemma_cum_step(s: Seq<u64>, i: int)
    requires
        0 <= i < s.len(),
    ensures
        cum(s, i + 1) == cum(s, i) + s[i],
{
    assert(s.subrange(0, i + 1).drop_last() =~= s.subrange(0, i));
}

/// The running count never decreases.
proof fn lemma_cum_monotone(s: Seq<u64>, i: int, j: int)
    requires
        0 <= i <= j <= s.len(),
    ensures
        cum(s, i) <= cum(s, j),
    decreases j - i,
{
    if i < j {
        lemma_cum_monotone(s, i, j - 1);
        lemma_cum_step(s, j - 1);
    }
}

/// No single bucket exceeds the sum of all buckets.
proof fn lemma_count_le_sum(s: Seq<u64>, i: int)
    requires
        0 <= i < s.len(),
    ensures
        s[i] <= sum_u64(s),
    decreases s.len(),
{
    if i == s.len() - 1 {
        lemma_sum_nonneg(s.drop_last());
    } else {
        lemma_count_le_sum(s.drop_last(), i);
    }
}

/// Replacing one bucket's count changes the sum by the difference.
proof fn lemma_sum_update(s: Seq<u64>, i: int, v: u64)
    requires
        0 <= i < s.len(),
    ensures
        sum_u64(s.update(i, v)) == sum_u64(s) - s[i] + v,
    decreases s.len(),
{
    if i == s.len() - 1 {
        assert(s.update(i, v).drop_last() =~= s.drop_last());
        assert(s.update(i, v).last() == v);
    } else {
        lemma_sum_update(s.drop_last(), i, v);
        assert(s.update(i, v).drop_last() =~= s.drop_last().update(i, v));
        assert(s.update(i, v).last() == s.last());
    }
}

/// Two targets in order cross at buckets in order.
proof fn lemma_crossing_ordered(s: Seq<u64>, t1: int, t2: int, i: int, j: int)
    requires
        t1 <= t2,
        crossing_at(s, t1, i),
        crossing_at(s, t2, j),
    ensures
        i <= j,
{
    if j < i {
        lemma_cum_monotone(s, j + 1, i);
        assert(cum(s, j + 1) >= t2);
        assert(cum(s, i) < t1);
    }
}

/// Bucket bounds grow with the bucket index.
proof fn lemma_bound_of_monotone(i: int, j: int)
    requires
        i <= j,
    ensures
        bound_of(i) <= bound_of(j),
{
}

/// The bucket a latency value falls into, by scanning the edges.
fn find_bucket(bounds: &Vec<u64>, latency_ms: u64) -> (idx: usize)
    requires
        bounds@ == spec_bounds(),
    ensures
        idx as int == bucket_index(latency_ms),
        idx < NUM_BUCKETS,
{
    proof {
        lemma_bounds_values();
    }
    let mut idx: usize = 0;
    while idx < NUM_BOUNDS
        invariant
            bounds@ == spec_bounds(),
            0 <= idx <= NUM_BOUNDS,
            forall|k: int| 0 <= k < idx ==> latency_ms > bound_of(k),
        decreases NUM_BOUNDS - idx,
    {
        proof {
            lemma_bounds_values();
        }
        if latency_ms <= bounds[idx] {
            return idx;
        }
        idx += 1;
    }
    NUM_BOUNDS
}

impl LatencyHistogram {
    /// Twelve fixed edges, thirteen counters, and a running total that
    /// equals the sum of the counters.
    pub open spec fn wf(self) -> bool {
        &&& self.bounds@ == spec_bounds()
        &&& self.counts@.len() == NUM_BUCKETS
        &&& self.total == sum_u64(self.counts@)
    }

    /// An empty histogram.
    pub fn new() -> (r: LatencyHistogram)
        ensures
            r.wf(),
            r.total == 0,
            forall|i: int| 0 <= i < NUM_BUCKETS ==> #[trigger] r.counts@[i] == 0,
    {
        let mut bounds: Vec<u64> = Vec::new();
        bounds.push(5);
        bounds.push(10);
        bounds.push(25);
        bounds.push(50);
        bounds.push(100);
        bounds.push(150);
        bounds.push(200);
        bounds.push(300);
        bounds.push(500);
        bounds.push(1000);
        bounds.push(2000);
        bounds.push(5000);
        let mut counts: Vec<u64> = Vec::new();
        let mut i: usize = 0;
        while i < NUM_BUCKETS
            invariant
                0 <= i <= NUM_BUCKETS,
                counts@.len() == i,
                forall|k: int| 0 <= k < i ==> #[trigger] counts@[k] == 0,
            decreases NUM_BUCKETS - i,
        {
            counts.push(0);
            i += 1;
        }
        proof {
            assert(bounds@ =~= spec_bounds());
            lemma_sum_all_zero(counts@);
        }
        LatencyHistogram { bounds, counts, total: 0 }
    }

    /// Records one latency observation in the bucket it falls into.
    /// A histogram that has somehow reached the counter ceiling stops
    /// counting rather than wrap.
    pub fn observe(&mut self, latency_ms: u64)
        requires
            old(self).wf(),
        ensures
            final(self).wf(),
            observed_rel(*old(self), *final(self), latency_ms),
    {
        if self.total == u64::MAX {
            return ;
        }
        let idx = find_bucket(&self.bounds, latency_ms);
        proof {
            lemma_count_le_sum(self.counts@, idx as int);
            lemma_sum_update(self.counts@, idx as int, (self.counts@[idx as int] + 1) as u64);
        }
        self.counts[idx] = self.counts[idx] + 1;
        self.total = self.total + 1;
    }

    /// Reports the bucket bounds at which the running count first
    /// covers 50, 90 and 99 percent of the samples; all zeros when
    /// nothing has been observed. The three values are always in
    /// order.
    pub fn percentiles(&self) -> (r: LatencyPercentiles)
        requires
            self.wf(),
        ensures
            self.total == 0 ==> r == (LatencyPercentiles {
                p50_ms: 0,
                p90_ms: 0,
                p99_ms: 0,
                samples: 0,
            }),
            self.total > 0 ==> {
                &&& r.samples == self.total
                &&& exists|i: int|
                    crossing_at(self.counts@, target_of(self.total as int, 50), i) && r.p50_ms
                        == bound_of(i)
                &&& exists|i: int|
                    crossing_at(self.counts@, target_of(self.total as int, 90), i) && r.p90_ms
                        == bound_of(i)
                &&& exists|i: int|
                    crossing_at(self.counts@, target_of(self.total as int, 99), i) && r.p99_ms
                        == bound_of(i)
            },
            r.p50_ms <= r.p90_ms <= r.p99_ms,
    {
        let total = self.total;
        if total == 0 {
            return LatencyPercentiles { p50_ms: 0, p90_ms: 0, p99_ms: 0, samples: 0 };
        }
        let t50: u128 = ((total as u128) * 50 + 99) / 100;
        let t90: u128 = ((total as u128) * 90 + 99) / 100;
        let t99: u128 = ((total as u128) * 99 + 99) / 100;
        proof {
            assert(t50 as int == target_of(total as int, 50));
            assert(t90 as int == target_of(total as int, 90));
            assert(t99 as int == target_of(total as int, 99));
            assert(1 <= t50 as int <= t90 as int <= t99 as int <= total as int);
        }

        let mut running: u64 = 0;
        let mut p50: u64 = 0;
        let mut p90: u64 = 0;
        let mut p99: u64 = 0;
        let mut found50 = false;
        let mut found90 = false;
        let mut found99 = false;
        let mut idx: usize = 0;
        while idx < NUM_BUCKETS
            invariant
                self.wf(),
                self.total == total,
                0 < total,
                t50 as int == target_of(total as int, 50),
                t90 as int == target_of(total as int, 90),
                t99 as int == target_of(total as int, 99),
                1 <= t50 as int <= t90 as int <= t99 as int <= total as int,
                0 <= idx <= NUM_BUCKETS,
                running as int == cum(self.counts@, idx as int),
                running <= total,
                found50 ==> exists|i: int|
                    crossing_at(self.counts@, t50 as int, i) && p50 == bound_of(i),
                !found50 ==> cum(self.counts@, idx as int) < t50 as int,
                found90 ==> exists|i: int|
                    crossing_at(self.counts@, t90 as int, i) && p90 == bound_of(i),
                !found90 ==> cum(self.counts@, idx as int) < t90 as int,
                found99 ==> exists|i: int|
                    crossing_at(self.counts@, t99 as int, i) && p99 == bound_of(i),
                !found99 ==> cum(self.counts@, idx as int) < t99 as int,
            decreases NUM_BUCKETS - idx,
        {
            proof {
                lemma_cum_step(self.counts@, idx as int);
                lemma_cum_monotone(self.counts@, idx as int + 1, NUM_BUCKETS as int);
                assert(self.counts@.subrange(0, NUM_BUCKETS as int) =~= self.counts@);
            }
            running = running + self.counts[idx];
            let b = if idx < NUM_BOUNDS {
                self.bounds[idx]
            } else {
                OVERFLOW_BOUND_MS
            };
            proof {
                lemma_bounds_values();
                assert(b == bound_of(idx as int));
            }
            if !found50 && (running as u128) >= t50 {
                p50 = b;
                found50 = true;
            }
            if !found90 && (running as u128) >= t90 {
                p90 = b;
                found90 = true;
            }
            if !found99 && (running as u128) >= t99 {
                p99 = b;
                found99 = true;
            }
            idx += 1;
        }
        proof {
            assert(self.counts@.subrange(0, NUM_BUCKETS as int) =~= self.counts@);
            assert(cum(self.counts@, NUM_BUCKETS as int) == total as int);
            assert(found50 && found90 && found99);
            let i50 = choose|i: int| crossing_at(self.counts@, t50 as int, i) && p50 == bound_of(i);
            let i90 = choose|i: int| crossing_at(self.counts@, t90 as int, i) && p90 == bound_of(i);
            let i99 = choose|i: int| crossing_at(self.counts@, t99 as int, i) && p99 == bound_of(i);
            lemma_crossing_ordered(self.counts@, t50 as int, t90 as int, i50, i90);
            lemma_crossing_ordered(self.counts@, t90 as int, t99 as int, i90, i99);
            lemma_bound_of_monotone(i50, i90);
            lemma_bound_of_monotone(i90, i99);
        }
        LatencyPercentiles { p50_ms: p50, p90_ms: p90, p99_ms: p99, samples: total }
    }
}

proof fn lemma_sum_all_zero(s: Seq<u64>)
    requires
        forall|i: int| 0 <= i < s.len() ==> #[trigger] s[i] == 0,
    ensures
        sum_u64(s) == 0,
    decreases s.len(),
{
    if s.len() > 0 {
        lemma_sum_all_zero(s.drop_last());
    }
}

} // verus!
