//! Quantile estimates from cumulative histogram buckets, by linear
//! interpolation inside the bucket that holds the wanted rank.

use vstd::prelude::*;

use crate::benchmark::Benchmark;
use crate::error::BenchmarkError;
use crate::histogram::{bound_le, bounds_sorted, Bound, HistogramCount};

verus! {

/// A quantile, given in whole percent: 99 stands for the 0.99 quantile.
#[derive(Clone, Copy, Debug, PartialEq, Eq, Structural)]
pub struct Quantile {
    pub percent: u8,
}

/// An estimated quantile: an exact fraction of bound units, or beyond every
/// finite boundary.
#[derive(Clone, Copy, Debug, PartialEq, Eq, Structural)]
pub enum QuantileValue {
    /// `numerator / denominator` units; the denominator is the number of
    /// observations in the bucket that was interpolated.
    Finite { numerator: u128, denominator: u64 },
    /// Above the last finite bucket boundary.
    Infinite,
}

impl QuantileValue {
    /// The estimate lies strictly above `threshold` units.
    pub open spec fn exceeds_spec(self, threshold: u64) -> bool {
        match self {
            QuantileValue::Finite { numerator, denominator } => numerator > threshold
                * denominator,
            QuantileValue::Infinite => true,
        }
    }

    /// Whether the estimate lies strictly above `threshold` units.
    pub fn exceeds(&self, threshold: u64) -> (above: bool)
        ensures
            above == self.exceeds_spec(threshold),
    {
        match self {
            QuantileValue::Finite { numerator, denominator } => {
                assert(threshold * *denominator <= u128::MAX) by (nonlinear_arith)
                    requires
                        threshold <= u64::MAX,
                        *denominator <= u64::MAX,
                ;
                *numerator > (threshold as u128) * (*denominator as u128)
            },
            QuantileValue::Infinite => true,
        }
    }

    /// `self` is at most `other`, as fractions, with the unbounded estimate
    /// above all others.
    pub open spec fn le(self, other: QuantileValue) -> bool {
        match (self, other) {
            (_, QuantileValue::Infinite) => true,
            (QuantileValue::Infinite, QuantileValue::Finite { .. }) => false,
            (
                QuantileValue::Finite { numerator: n1, denominator: d1 },
                QuantileValue::Finite { numerator: n2, denominator: d2 },
            ) => n1 * d2 <= n2 * d1,
        }
    }
}

/// The rank that a quantile asks for among `total_count` observations: the
/// percentage of the count, rounded up.
pub open spec fn quantile_target(total_count: u64, quantile: Quantile) -> int {
    (quantile.percent * total_count + 99) / 100
}

/// The first position at or after `from` whose cumulative count reaches
/// `target`, or the number of buckets if none does.
pub open spec fn reaching_bucket(buckets: Seq<HistogramCount>, target: int, from: int) -> int
    decreases buckets.len() - from,
{
    if from < 0 || from >= buckets.len() {
        buckets.len() as int
    } else if buckets[from].count >= target {
        from
    } else {
        reaching_bucket(buckets, target, from + 1)
    }
}

/// The cumulative count just below bucket `at`: that of the bucket before
/// it, or zero for the first bucket.
pub open spec fn count_below(buckets: Seq<HistogramCount>, at: int) -> int {
    if at <= 0 {
        0
    } else {
        buckets[at - 1].count as int
    }
}

/// The lower boundary of bucket `at`: the boundary of the bucket before it,
/// or zero for the first bucket.
pub open spec fn bound_below(buckets: Seq<HistogramCount>, at: int) -> Bound {
    if at <= 0 {
        Bound::Finite(0)
    } else {
        buckets[at - 1].less_than
    }
}

/// The point that lies `steps` out of `width` of the way from `lower` to
/// `upper`. A step into an unbounded bucket leaves every finite boundary
/// behind; no step at all stays at `lower`.
pub open spec fn interpolate(lower: Bound, upper: Bound, steps: int, width: int) -> QuantileValue {
    match (lower, upper) {
        (Bound::Finite(lo), Bound::Finite(hi)) => QuantileValue::Finite {
            numerator: (lo * (width - steps) + hi * steps) as u128,
            denominator: width as u64,
        },
        (Bound::Finite(lo), Bound::Infinite) => if steps == 0 {
            QuantileValue::Finite { numerator: (lo * width) as u128, denominator: width as u64 }
        } else {
            QuantileValue::Infinite
        },
        (Bound::Infinite, _) => QuantileValue::Infinite,
    }
}

/// The quantile estimate over cumulative `buckets` that hold `total_count`
/// observations in all.
pub open spec fn quantile_spec(
    buckets: Seq<HistogramCount>,
    total_count: u64,
    quantile: Quantile,
) -> Result<QuantileValue, BenchmarkError> {
    let target = quantile_target(total_count, quantile);
    let at = reaching_bucket(buckets, target, 0);
    if total_count == 0 {
        Err(BenchmarkError::NoDataYetForP99Calculation)
    } else if at >= buckets.len() {
        Err(BenchmarkError::CouldNotComputeQuantile)
    } else if buckets[at].count == count_below(buckets, at) {
        Err(BenchmarkError::UnexpectedEmptyBucket)
    } else {
        Ok(
            interpolate(
                bound_below(buckets, at),
                buckets[at].less_than,
                target - count_below(buckets, at),
                buckets[at].count - count_below(buckets, at),
            ),
        )
    }
}

/// `reaching_bucket` finds the least position from `from` on whose
/// cumulative count reaches `target`.
pub proof fn lemma_reaching_bucket_is_first(buckets: Seq<HistogramCount>, target: int, from: int)
    requires
        0 <= from <= buckets.len(),
    ensures
        from <= reaching_bucket(buckets, target, from) <= buckets.len(),
        reaching_bucket(buckets, target, from) < buckets.len() ==> buckets[reaching_bucket(
            buckets,
            target,
            from,
        )].count >= target,
        forall|i: int|
            from <= i < reaching_bucket(buckets, target, from) ==> (#[trigger] buckets[i]).count
                < target,
    decreases buckets.len() - from,
{
    if from < buckets.len() && buckets[from].count < target {
        lemma_reaching_bucket_is_first(buckets, target, from + 1);
    }
}

/// The weighted sum of two boundaries that an interpolation needs fits in
/// 128 bits.
proof fn lemma_weighted_sum_fits(lo: u64, hi: u64, steps: u64, width: u64)
    requires
        steps <= width,
    ensures
        0 <= lo * (width - steps) + hi * steps <= u128::MAX,
        lo <= hi ==> lo * width <= lo * (width - steps) + hi * steps <= hi * width,
{
    assert(0 <= lo * (width - steps) <= u64::MAX * (width - steps)) by (nonlinear_arith)
        requires
            0 <= lo <= u64::MAX,
            0 <= width - steps,
    ;
    assert(0 <= hi * steps <= u64::MAX * steps) by (nonlinear_arith)
        requires
            0 <= hi <= u64::MAX,
            0 <= steps,
    ;
    assert(u64::MAX * (width - steps) + u64::MAX * steps == u64::MAX * width)
        by (nonlinear_arith);
    assert(u64::MAX * width <= u64::MAX * u64::MAX) by (nonlinear_arith)
        requires
            width <= u64::MAX,
    ;
    if lo <= hi {
        assert(lo * (width - steps) + hi * steps == lo * width + (hi - lo) * steps)
            by (nonlinear_arith);
        assert(lo * (width - steps) + hi * steps == hi * width - (hi - lo) * (width - steps))
            by (nonlinear_arith);
        assert((hi - lo) * steps >= 0) by (nonlinear_arith)
            requires
                hi - lo >= 0,
                steps >= 0,
        ;
        assert((hi - lo) * (width - steps) >= 0) by (nonlinear_arith)
            requires
                hi - lo >= 0,
                width - steps >= 0,
        ;
    }
}

impl Benchmark {
    /// Estimates a quantile from cumulative `buckets` holding `total_count`
    /// observations.
    ///
    /// The wanted rank is the quantile's share of `total_count`, rounded up.
    /// The estimate lies in the first bucket whose cumulative count reaches the
    /// rank, as far between the bucket's two boundaries as the rank lies
    /// between the cumulative counts at those boundaries.
    ///
    /// Fails when nothing was observed, when no bucket reaches the rank, or
    /// when the bucket found holds no observation of its own.
    pub fn compute_quantile(buckets: &[HistogramCount], total_count: u64, quantile: Quantile) -> (result:
        Result<QuantileValue, BenchmarkError>)
        ensures
            result == quantile_spec(buckets@, total_count, quantile),
    {
        if total_count == 0 {
            return Err(BenchmarkError::NoDataYetForP99Calculation);
        }
        assert(quantile.percent * total_count <= 255 * u64::MAX) by (nonlinear_arith)
            requires
                quantile.percent <= 255,
                total_count <= u64::MAX,
        ;
        let target: u128 = ((quantile.percent as u128) * (total_count as u128) + 99) / 100;
        let mut prev_cumulative: u64 = 0;
        let mut prev_bound = Bound::Finite(0);
        let mut i: usize = 0;
        while i < buckets.len()
            invariant
                total_count != 0,
                target == quantile_target(total_count, quantile),
                i <= buckets@.len(),
                prev_cumulative == count_below(buckets@, i as int),
                prev_bound == bound_below(buckets@, i as int),
                prev_cumulative <= target,
                reaching_bucket(buckets@, target as int, 0) == reaching_bucket(
                    buckets@,
                    target as int,
                    i as int,
                ),
            decreases buckets@.len() - i,
        {
            let bucket = buckets[i];
            if bucket.count as u128 >= target {
                let bucket_count: u64 = bucket.count - prev_cumulative;
                if bucket_count == 0 {
                    return Err(BenchmarkError::UnexpectedEmptyBucket);
                }
                let steps: u64 = (target - prev_cumulative as u128) as u64;
                proof {
                    lemma_weighted_sum_fits(
                        match prev_bound {
                            Bound::Finite(lo) => lo,
                            Bound::Infinite => 0,
                        },
                        match bucket.less_than {
                            Bound::Finite(hi) => hi,
                            Bound::Infinite => 0,
                        },
                        steps,
                        bucket_count,
                    );
                }
                let value = match (prev_bound, bucket.less_than) {
                    (Bound::Finite(lo), Bound::Finite(hi)) => QuantileValue::Finite {
                        numerator: (lo as u128) * ((bucket_count - steps) as u128) + (hi as u128) * (
                        steps as u128),
                        denominator: bucket_count,
                    },
                    (Bound::Finite(lo), Bound::Infinite) => if steps == 0 {
                        assert(lo * bucket_count <= u128::MAX) by (nonlinear_arith)
                            requires
                                lo <= u64::MAX,
                                bucket_count <= u64::MAX,
                        ;
                        QuantileValue::Finite {
                            numerator: (lo as u128) * (bucket_count as u128),
                            denominator: bucket_count,
                        }
                    } else {
                        QuantileValue::Infinite
                    },
                    (Bound::Infinite, _) => QuantileValue::Infinite,
                };
                return Ok(value);
            }
            prev_cumulative = bucket.count;
            prev_bound = bucket.less_than;
            i += 1;
        }
        Err(BenchmarkError::CouldNotComputeQuantile)
    }
}

impl QuantileValue {
    /// The estimate is no smaller than the boundary `bound`.
    pub open spec fn at_least(self, bound: Bound) -> bool {
        match (self, bound) {
            (QuantileValue::Infinite, _) => true,
            (QuantileValue::Finite { .. }, Bound::Infinite) => false,
            (QuantileValue::Finite { numerator, denominator }, Bound::Finite(b)) => numerator
                >= b * denominator,
        }
    }

    /// The estimate is no greater than the boundary `bound`.
    pub open spec fn at_most(self, bound: Bound) -> bool {
        match (self, bound) {
            (_, Bound::Infinite) => true,
            (QuantileValue::Infinite, Bound::Finite(_)) => false,
            (QuantileValue::Finite { numerator, denominator }, Bound::Finite(b)) => numerator
                <= b * denominator,
        }
    }

    /// The denominator of a finite estimate is positive.
    pub open spec fn well_formed(self) -> bool {
        match self {
            QuantileValue::Finite { denominator, .. } => denominator > 0,
            QuantileValue::Infinite => true,
        }
    }
}

/// An estimate over buckets with sorted boundaries lies between the two
/// boundaries of the bucket that holds the wanted rank, and the rank lies
/// within that bucket's share of the cumulative counts.
pub proof fn lemma_quantile_within_bucket(
    buckets: Seq<HistogramCount>,
    total_count: u64,
    quantile: Quantile,
)
    requires
        bounds_sorted(buckets),
        quantile_spec(buckets, total_count, quantile) is Ok,
    ensures
        ({
            let target = quantile_target(total_count, quantile);
            let at = reaching_bucket(buckets, target, 0);
            let value = quantile_spec(buckets, total_count, quantile)->Ok_0;
            &&& 0 <= at < buckets.len()
            &&& value.well_formed()
            &&& value.at_least(bound_below(buckets, at))
            &&& value.at_most(buckets[at].less_than)
            &&& count_below(buckets, at) <= target <= buckets[at].count
            &&& (at > 0 ==> count_below(buckets, at) < target)
        }),
{
    let target = quantile_target(total_count, quantile);
    let at = reaching_bucket(buckets, target, 0);
    lemma_reaching_bucket_is_first(buckets, target, 0);
    assert(0 <= target);
    if at > 0 {
        assert(buckets[at - 1].count < target);
        assert(bound_le(buckets[at - 1].less_than, buckets[at].less_than));
    }
    let below = count_below(buckets, at);
    let steps = target - below;
    let width = buckets[at].count - below;
    assert(0 <= steps <= width);
    assert(0 < width <= u64::MAX);
    match (bound_below(buckets, at), buckets[at].less_than) {
        (Bound::Finite(lo), Bound::Finite(hi)) => {
            lemma_weighted_sum_fits(lo, hi, steps as u64, width as u64);
        },
        (Bound::Finite(lo), Bound::Infinite) => {
            assert(0 <= lo * width <= u128::MAX) by (nonlinear_arith)
                requires
                    0 <= lo <= u64::MAX,
                    0 <= width <= u64::MAX,
            ;
        },
        (Bound::Infinite, _) => {},
    }
}

/// Over one list of buckets with sorted boundaries and one total count, a
/// higher quantile never gets a lower estimate.
pub proof fn lemma_quantile_monotone(
    buckets: Seq<HistogramCount>,
    total_count: u64,
    lower: Quantile,
    higher: Quantile,
)
    requires
        bounds_sorted(buckets),
        lower.percent <= higher.percent,
        quantile_spec(buckets, total_count, lower) is Ok,
        quantile_spec(buckets, total_count, higher) is Ok,
    ensures
        quantile_spec(buckets, total_count, lower)->Ok_0.le(
            quantile_spec(buckets, total_count, higher)->Ok_0,
        ),
{
    let t1 = quantile_target(total_count, lower);
    let t2 = quantile_target(total_count, higher);
    assert(lower.percent * total_count <= higher.percent * total_count) by (nonlinear_arith)
        requires
            lower.percent <= higher.percent,
            0 <= total_count,
    ;
    assert(t1 <= t2);
    let i1 = reaching_bucket(buckets, t1, 0);
    let i2 = reaching_bucket(buckets, t2, 0);
    lemma_reaching_bucket_is_first(buckets, t1, 0);
    lemma_reaching_bucket_is_first(buckets, t2, 0);
    lemma_quantile_within_bucket(buckets, total_count, lower);
    lemma_quantile_within_bucket(buckets, total_count, higher);
    let v1 = quantile_spec(buckets, total_count, lower)->Ok_0;
    let v2 = quantile_spec(buckets, total_count, higher)->Ok_0;
    assert(i1 <= i2) by {
        if i2 < i1 {
            assert(buckets[i2].count < t1);
        }
    }
    if i1 == i2 {
        let below = count_below(buckets, i1);
        let k1 = t1 - below;
        let k2 = t2 - below;
        let width = buckets[i1].count - below;
        match (bound_below(buckets, i1), buckets[i1].less_than) {
            (Bound::Finite(lo), Bound::Finite(hi)) => {
                if i1 > 0 {
                    assert(bound_le(buckets[i1 - 1].less_than, buckets[i1].less_than));
                }
                assert(lo <= hi);
                lemma_weighted_sum_fits(lo, hi, k1 as u64, width as u64);
                lemma_weighted_sum_fits(lo, hi, k2 as u64, width as u64);
                assert((lo * (width - k1) + hi * k1) * width <= (lo * (width - k2) + hi * k2)
                    * width) by (nonlinear_arith)
                    requires
                        0 <= lo <= hi,
                        0 <= k1 <= k2 <= width,
                ;
            },
            (Bound::Finite(lo), Bound::Infinite) => {
                if k2 == 0 {
                    assert(k1 == 0);
                }
            },
            (Bound::Infinite, _) => {},
        }
    } else {
        assert(bound_le(buckets[i1].less_than, buckets[i2 - 1].less_than));
        assert(buckets[i2 - 1].count < t2);
        match (v1, v2) {
            (
                QuantileValue::Finite { numerator: n1, denominator: d1 },
                QuantileValue::Finite { numerator: n2, denominator: d2 },
            ) => {
                let h1 = buckets[i1].less_than->Finite_0;
                let l2 = buckets[i2 - 1].less_than->Finite_0;
                assert(buckets[i2 - 1].less_than is Finite);
                assert(buckets[i1].less_than is Finite);
                assert(n1 * d2 <= n2 * d1) by (nonlinear_arith)
                    requires
                        n1 <= h1 * d1,
                        l2 * d2 <= n2,
                        h1 <= l2,
                        0 < d1,
                        0 < d2,
                        0 <= h1,
                        0 <= n1,
                ;
            },
            _ => {},
        }
    }
}

} // verus!
