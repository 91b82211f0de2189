//! Cumulative-bucket latency histograms and their interval differences.
//!
//! Counts are whole numbers and bucket boundaries are whole multiples of a
//! unit chosen by the caller (the health check uses microseconds), with one
//! extra value standing for the unbounded last bucket.

use vstd::prelude::*;

use crate::benchmark::Benchmark;
use crate::error::BenchmarkError;

verus! {

/// The upper boundary of a histogram bucket.
#[derive(Clone, Copy, Debug, PartialEq, Eq, Structural)]
pub enum Bound {
    /// A boundary at the given number of units.
    Finite(u64),
    /// The boundary of the catch-all bucket.
    Infinite,
}

/// One bucket of a cumulative histogram: how many observations were at most
/// `less_than`.
#[derive(Clone, Copy, Debug, PartialEq, Eq, Structural)]
pub struct HistogramCount {
    pub less_than: Bound,
    pub count: u64,
}

/// `a` is no greater than `b`, with the unbounded boundary above all others.
pub open spec fn bound_le(a: Bound, b: Bound) -> bool {
    match (a, b) {
        (_, Bound::Infinite) => true,
        (Bound::Infinite, Bound::Finite(_)) => false,
        (Bound::Finite(x), Bound::Finite(y)) => x <= y,
    }
}

/// The boundaries of `buckets` never decrease from one bucket to the next.
pub open spec fn bounds_sorted(buckets: Seq<HistogramCount>) -> bool {
    forall|i: int, j: int|
        0 <= i <= j < buckets.len() ==> bound_le(
            #[trigger] buckets[i].less_than,
            #[trigger] buckets[j].less_than,
        )
}

/// A histogram as one scrape reports it: cumulative buckets, the number of
/// observations and their sum.
#[derive(Clone, Debug, PartialEq, Eq)]
pub struct HistogramSnapshot {
    pub buckets: Vec<HistogramCount>,
    pub count: u64,
    pub sum: u64,
}

impl HistogramSnapshot {
    /// The boundary of the last bucket but one: where the buckets end in a
    /// catch-all bucket, the last boundary that an observation can be told
    /// to lie below. None where there are fewer than two buckets.
    pub fn last_bucket_boundary(&self) -> (boundary: Option<Bound>)
        ensures
            boundary == if self.buckets@.len() >= 2 {
                Some(self.buckets@[self.buckets@.len() - 2].less_than)
            } else {
                None
            },
    {
        if self.buckets.len() >= 2 {
            Some(self.buckets[self.buckets.len() - 2].less_than)
        } else {
            None
        }
    }
}

/// Growth of one cumulative count, with a shrinking count read as no growth.
pub open spec fn count_growth(before: u64, after: u64) -> u64 {
    if after >= before {
        (after - before) as u64
    } else {
        0
    }
}

/// The boundary of the bucket at position `at`, if the list has one there.
pub open spec fn boundary_at(buckets: Seq<HistogramCount>, at: int) -> Option<Bound> {
    if 0 <= at < buckets.len() {
        Some(buckets[at].less_than)
    } else {
        None
    }
}

/// The length of the longer of two bucket lists.
pub open spec fn longer_len(previous: Seq<HistogramCount>, current: Seq<HistogramCount>) -> nat {
    if previous.len() >= current.len() {
        previous.len()
    } else {
        current.len()
    }
}

/// At every position below `end`, the two bucket lists both have a bucket
/// with the same boundary, or both have none.
pub open spec fn boundaries_match_below(
    previous: Seq<HistogramCount>,
    current: Seq<HistogramCount>,
    end: int,
) -> bool {
    forall|i: int|
        0 <= i < end ==> #[trigger] boundary_at(previous, i) == boundary_at(current, i)
}

/// The two bucket lists have the same boundaries: they are of one length
/// and agree on the boundary at every position.
pub open spec fn boundaries_match(
    previous: Seq<HistogramCount>,
    current: Seq<HistogramCount>,
) -> bool {
    &&& previous.len() == current.len()
    &&& forall|i: int|
        0 <= i < previous.len() ==> (#[trigger] previous[i]).less_than == current[i].less_than
}

/// Position `at` is the first at which the two bucket lists disagree: one
/// has a boundary there that the other has not.
pub open spec fn first_boundary_mismatch(
    previous: Seq<HistogramCount>,
    current: Seq<HistogramCount>,
    at: int,
) -> bool {
    &&& 0 <= at < longer_len(previous, current)
    &&& boundary_at(previous, at) != boundary_at(current, at)
    &&& boundaries_match_below(previous, current, at)
}

/// Bucket by bucket, the growth from `previous` to `current`, under the
/// boundaries of `current`.
pub open spec fn bucket_growth(
    previous: Seq<HistogramCount>,
    current: Seq<HistogramCount>,
) -> Seq<HistogramCount> {
    Seq::new(
        current.len(),
        |i: int|
            HistogramCount {
                less_than: current[i].less_than,
                count: count_growth(previous[i].count, current[i].count),
            },
    )
}

/// `diff` is what was observed between `previous` and `current`: neither
/// count nor sum went down, the boundaries are the same, and buckets,
/// count and sum are the growth from the one to the other.
pub open spec fn is_difference(
    previous: HistogramSnapshot,
    current: HistogramSnapshot,
    diff: HistogramSnapshot,
) -> bool {
    &&& current.count >= previous.count
    &&& current.sum >= previous.sum
    &&& boundaries_match(previous.buckets@, current.buckets@)
    &&& diff.buckets@ == bucket_growth(previous.buckets@, current.buckets@)
    &&& diff.count == current.count - previous.count
    &&& diff.sum == current.sum - previous.sum
}

/// `error` is why there is no difference between `previous` and
/// `current`: the count went down; or else the sum did; or else the
/// bucket lists disagree, and the error names what each has at the first
/// position where they do.
pub open spec fn is_difference_failure(
    previous: HistogramSnapshot,
    current: HistogramSnapshot,
    error: BenchmarkError,
) -> bool {
    if current.count < previous.count {
        error == BenchmarkError::HistogramCountMismatch
    } else if current.sum < previous.sum {
        error == BenchmarkError::HistogramSumMismatch
    } else {
        exists|at: int|
            #[trigger] first_boundary_mismatch(previous.buckets@, current.buckets@, at) && error
                == BenchmarkError::BucketBoundariesDoNotMatch(
                boundary_at(previous.buckets@, at),
                boundary_at(current.buckets@, at),
            )
    }
}

/// Bucket lists that agree at every position up to the longer one's end
/// have the same boundaries.
proof fn lemma_boundaries_match(previous: Seq<HistogramCount>, current: Seq<HistogramCount>)
    requires
        boundaries_match_below(previous, current, longer_len(previous, current) as int),
    ensures
        boundaries_match(previous, current),
{
    if previous.len() < current.len() {
        assert(boundary_at(previous, previous.len() as int) == boundary_at(
            current,
            previous.len() as int,
        ));
    }
    if current.len() < previous.len() {
        assert(boundary_at(previous, current.len() as int) == boundary_at(
            current,
            current.len() as int,
        ));
    }
    assert forall|i: int| 0 <= i < previous.len() implies (#[trigger] previous[i]).less_than
        == current[i].less_than by {
        assert(boundary_at(previous, i) == boundary_at(current, i));
    }
}

/// The boundary of the bucket at position `at`, if the list has one there.
fn boundary(buckets: &Vec<HistogramCount>, at: usize) -> (bound: Option<Bound>)
    ensures
        bound == boundary_at(buckets@, at as int),
{
    if at < buckets.len() {
        Some(buckets[at].less_than)
    } else {
        None
    }
}

impl Benchmark {
    /// Subtracts `previous` from `current`, bucket by bucket.
    ///
    /// Fails when the number of observations or their sum went down, and
    /// at the first position at which the two snapshots do not have the
    /// same bucket boundary, be it that the boundaries differ or that one
    /// list has ended. A bucket whose cumulative count went down counts as
    /// not grown.
    pub fn diff_histograms(previous: &HistogramSnapshot, current: &HistogramSnapshot) -> (result:
        Result<HistogramSnapshot, BenchmarkError>)
        ensures
            match result {
                Ok(diff) => is_difference(*previous, *current, diff),
                Err(error) => is_difference_failure(*previous, *current, error),
            },
    {
        if current.count < previous.count {
            return Err(BenchmarkError::HistogramCountMismatch);
        }
        if current.sum < previous.sum {
            return Err(BenchmarkError::HistogramSumMismatch);
        }
        let total_diff: u64 = current.count - previous.count;
        let longer: usize = if previous.buckets.len() >= current.buckets.len() {
            previous.buckets.len()
        } else {
            current.buckets.len()
        };
        let mut buckets_diff: Vec<HistogramCount> = Vec::new();
        let mut i: usize = 0;
        while i < longer
            invariant
                current.count >= previous.count,
                current.sum >= previous.sum,
                i <= longer,
                longer == longer_len(previous.buckets@, current.buckets@),
                boundaries_match_below(previous.buckets@, current.buckets@, i as int),
                i <= previous.buckets@.len(),
                i <= current.buckets@.len(),
                buckets_diff@.len() == i,
                forall|j: int|
                    0 <= j < i ==> buckets_diff@[j] == bucket_growth(
                        previous.buckets@,
                        current.buckets@,
                    )[j],
            decreases longer - i,
        {
            let bound_before = boundary(&previous.buckets, i);
            let bound_after = boundary(&current.buckets, i);
            let same = match (bound_before, bound_after) {
                (Some(before), Some(after)) => before == after,
                _ => false,
            };
            if !same {
                assert(first_boundary_mismatch(previous.buckets@, current.buckets@, i as int));
                return Err(BenchmarkError::BucketBoundariesDoNotMatch(bound_before, bound_after));
            }
            let before = previous.buckets[i];
            let after = current.buckets[i];
            let diff: u64 = if after.count >= before.count {
                after.count - before.count
            } else {
                0
            };
            buckets_diff.push(HistogramCount { less_than: after.less_than, count: diff });
            i += 1;
        }
        proof {
            lemma_boundaries_match(previous.buckets@, current.buckets@);
        }
        assert(buckets_diff@ =~= bucket_growth(previous.buckets@, current.buckets@));
        Ok(
            HistogramSnapshot {
                buckets: buckets_diff,
                count: total_diff,
                sum: current.sum - previous.sum,
            },
        )
    }
}

/// The difference of two snapshots is negative nowhere: it has a bucket
/// for every bucket of either, each bucket holds the growth of its
/// cumulative count, or nothing where that count shrank, and count and sum
/// are the growth of count and sum, neither of which went down.
pub proof fn lemma_difference_non_negative(
    previous: HistogramSnapshot,
    current: HistogramSnapshot,
    diff: HistogramSnapshot,
)
    requires
        is_difference(previous, current, diff),
    ensures
        diff.buckets@.len() == current.buckets@.len() == previous.buckets@.len(),
        forall|i: int|
            0 <= i < diff.buckets@.len() ==> {
                let growth = current.buckets@[i].count - previous.buckets@[i].count;
                &&& 0 <= (#[trigger] diff.buckets@[i]).count
                &&& diff.buckets@[i].count == if growth >= 0 {
                    growth
                } else {
                    0
                }
            },
        0 <= diff.count == current.count - previous.count,
        0 <= diff.sum == current.sum - previous.sum,
{
}

/// Bucket lists that disagree at some position do not have the same
/// boundaries, and the first position at which they disagree is one
/// position only.
pub proof fn lemma_first_mismatch(
    previous: Seq<HistogramCount>,
    current: Seq<HistogramCount>,
    at: int,
    other: int,
)
    requires
        first_boundary_mismatch(previous, current, at),
    ensures
        !boundaries_match(previous, current),
        first_boundary_mismatch(previous, current, other) ==> other == at,
{
    if boundaries_match(previous, current) {
        assert(previous[at].less_than == current[at].less_than);
    }
    if first_boundary_mismatch(previous, current, other) {
        if other < at {
            assert(boundary_at(previous, other) == boundary_at(current, other));
        }
        if at < other {
            assert(boundary_at(previous, at) == boundary_at(current, at));
        }
    }
}

/// The difference of two snapshots keeps the boundaries of the current
/// one, and with them their order.
pub proof fn lemma_difference_keeps_boundaries(
    previous: HistogramSnapshot,
    current: HistogramSnapshot,
    diff: HistogramSnapshot,
)
    requires
        is_difference(previous, current, diff),
    ensures
        forall|i: int|
            0 <= i < diff.buckets@.len() ==> (#[trigger] diff.buckets@[i]).less_than
                == current.buckets@[i].less_than,
        bounds_sorted(current.buckets@) ==> bounds_sorted(diff.buckets@),
{
    if bounds_sorted(current.buckets@) {
        assert forall|i: int, j: int| 0 <= i <= j < diff.buckets@.len() implies bound_le(
            #[trigger] diff.buckets@[i].less_than,
            #[trigger] diff.buckets@[j].less_than,
        ) by {
            assert(bound_le(current.buckets@[i].less_than, current.buckets@[j].less_than));
        }
    }
}

/// Whether `a` is no greater than `b`, with the unbounded boundary above
/// all others.
pub fn bound_is_le(a: Bound, b: Bound) -> (le: bool)
    ensures
        le == bound_le(a, b),
{
    match (a, b) {
        (_, Bound::Infinite) => true,
        (Bound::Infinite, Bound::Finite(_)) => false,
        (Bound::Finite(x), Bound::Finite(y)) => x <= y,
    }
}

/// The buckets of `buckets` whose boundary is `bound`, in their order.
pub open spec fn with_bound(buckets: Seq<HistogramCount>, bound: Bound) -> Seq<HistogramCount>
    decreases buckets.len(),
{
    if buckets.len() == 0 {
        Seq::empty()
    } else if buckets.last().less_than == bound {
        with_bound(buckets.drop_last(), bound).push(buckets.last())
    } else {
        with_bound(buckets.drop_last(), bound)
    }
}

/// `sorted` holds the buckets of `buckets` in the order of their
/// boundaries, and buckets that share a boundary in the order in which
/// `buckets` had them.
pub open spec fn is_stable_sort_of(sorted: Seq<HistogramCount>, buckets: Seq<HistogramCount>) -> bool {
    &&& sorted.len() == buckets.len()
    &&& bounds_sorted(sorted)
    &&& forall|bound: Bound| #[trigger] with_bound(sorted, bound) == with_bound(buckets, bound)
}

/// Picking the buckets of one boundary out of two lists in a row is
/// picking them out of each.
proof fn lemma_with_bound_concat(
    left: Seq<HistogramCount>,
    right: Seq<HistogramCount>,
    bound: Bound,
)
    ensures
        with_bound(left + right, bound) == with_bound(left, bound) + with_bound(right, bound),
    decreases right.len(),
{
    if right.len() == 0 {
        assert(left + right =~= left);
        assert(with_bound(left, bound) + with_bound(right, bound) =~= with_bound(left, bound));
    } else {
        assert((left + right).drop_last() =~= left + right.drop_last());
        assert((left + right).last() == right.last());
        lemma_with_bound_concat(left, right.drop_last(), bound);
        if right.last().less_than == bound {
            assert((with_bound(left, bound) + with_bound(right.drop_last(), bound)).push(
                right.last(),
            ) =~= with_bound(left, bound) + with_bound(right.drop_last(), bound).push(
                right.last(),
            ));
        }
    }
}

/// A list without a bucket of some boundary yields none for it.
proof fn lemma_with_bound_absent(buckets: Seq<HistogramCount>, bound: Bound)
    requires
        forall|i: int| 0 <= i < buckets.len() ==> (#[trigger] buckets[i]).less_than != bound,
    ensures
        with_bound(buckets, bound) == Seq::<HistogramCount>::empty(),
    decreases buckets.len(),
{
    if buckets.len() > 0 {
        assert(buckets.last() == buckets[buckets.len() - 1]);
        assert forall|i: int| 0 <= i < buckets.drop_last().len() implies (
        #[trigger] buckets.drop_last()[i]).less_than != bound by {
            assert(buckets.drop_last()[i] == buckets[i]);
        }
        lemma_with_bound_absent(buckets.drop_last(), bound);
    }
}

/// Putting `bucket` into a sorted list, behind every bucket whose boundary
/// is no greater than its own, keeps the list sorted and extends the
/// buckets of its boundary at their end.
proof fn lemma_insert_keeps_stable_order(
    sorted: Seq<HistogramCount>,
    seen: Seq<HistogramCount>,
    bucket: HistogramCount,
    at: int,
)
    requires
        is_stable_sort_of(sorted, seen),
        0 <= at <= sorted.len(),
        forall|i: int| 0 <= i < at ==> bound_le((#[trigger] sorted[i]).less_than, bucket.less_than),
        forall|i: int|
            at <= i < sorted.len() ==> !bound_le((#[trigger] sorted[i]).less_than, bucket.less_than),
    ensures
        is_stable_sort_of(sorted.insert(at, bucket), seen.push(bucket)),
{
    let grown = sorted.insert(at, bucket);
    let head = sorted.subrange(0, at);
    let tail = sorted.subrange(at, sorted.len() as int);
    assert(grown =~= head + seq![bucket] + tail);
    assert(sorted =~= head + tail);
    assert forall|i: int, j: int| 0 <= i <= j < grown.len() implies bound_le(
        #[trigger] grown[i].less_than,
        #[trigger] grown[j].less_than,
    ) by {
        if j < at {
            assert(bound_le(sorted[i].less_than, sorted[j].less_than));
        } else if i > at {
            assert(bound_le(sorted[i - 1].less_than, sorted[j - 1].less_than));
        } else if i == at {
            if j > at {
                assert(!bound_le(sorted[j - 1].less_than, bucket.less_than));
            }
        } else {
            assert(bound_le(sorted[i].less_than, bucket.less_than));
            if j > at {
                assert(!bound_le(sorted[j - 1].less_than, bucket.less_than));
            }
        }
    }
    assert forall|bound: Bound| #[trigger]
        with_bound(grown, bound) == with_bound(seen.push(bucket), bound) by {
        lemma_with_bound_concat(head + seq![bucket], tail, bound);
        lemma_with_bound_concat(head, seq![bucket], bound);
        lemma_with_bound_concat(head, tail, bound);
        assert(with_bound(sorted, bound) == with_bound(seen, bound));
        assert(seen.push(bucket).drop_last() =~= seen);
        assert(seq![bucket].drop_last() =~= Seq::<HistogramCount>::empty());
        assert(with_bound(seq![bucket].drop_last(), bound) =~= Seq::<HistogramCount>::empty());
        if bucket.less_than == bound {
            assert forall|i: int| 0 <= i < tail.len() implies (#[trigger] tail[i]).less_than
                != bound by {
                assert(!bound_le(sorted[at + i].less_than, bucket.less_than));
            }
            lemma_with_bound_absent(tail, bound);
            assert(with_bound(seq![bucket], bound) =~= seq![bucket]);
            assert(with_bound(grown, bound) =~= with_bound(head, bound).push(bucket));
            assert(with_bound(sorted, bound) =~= with_bound(head, bound));
        } else {
            assert(with_bound(seq![bucket], bound) =~= Seq::<HistogramCount>::empty());
            assert(with_bound(grown, bound) =~= with_bound(head, bound) + with_bound(
                tail,
                bound,
            ));
        }
    }
}

/// Sorts buckets by their boundary; buckets that share a boundary keep the
/// order in which they came.
pub fn sort_by_bound(buckets: &Vec<HistogramCount>) -> (sorted: Vec<HistogramCount>)
    ensures
        is_stable_sort_of(sorted@, buckets@),
{
    let mut sorted: Vec<HistogramCount> = Vec::new();
    let mut k: usize = 0;
    assert(buckets@.take(0) =~= Seq::<HistogramCount>::empty());
    while k < buckets.len()
        invariant
            k <= buckets@.len(),
            is_stable_sort_of(sorted@, buckets@.take(k as int)),
        decreases buckets@.len() - k,
    {
        let bucket = buckets[k];
        let mut at: usize = 0;
        while at < sorted.len() && bound_is_le(sorted[at].less_than, bucket.less_than)
            invariant
                at <= sorted@.len(),
                forall|i: int|
                    0 <= i < at ==> bound_le((#[trigger] sorted@[i]).less_than, bucket.less_than),
            decreases sorted@.len() - at,
        {
            at += 1;
        }
        proof {
            assert forall|i: int| at <= i < sorted@.len() implies !bound_le(
                (#[trigger] sorted@[i]).less_than,
                bucket.less_than,
            ) by {
                assert(bound_le(sorted@[at as int].less_than, sorted@[i].less_than));
            }
            lemma_insert_keeps_stable_order(sorted@, buckets@.take(k as int), bucket, at as int);
            assert(buckets@.take(k as int).push(bucket) =~= buckets@.take(k + 1));
        }
        sorted.insert(at, bucket);
        k += 1;
    }
    assert(buckets@.take(k as int) =~= buckets@);
    sorted
}

/// There is one way only to sort buckets by boundary while keeping those
/// of one boundary in their order: two lists that do so are the same.
pub proof fn lemma_stable_sort_is_unique(
    first: Seq<HistogramCount>,
    second: Seq<HistogramCount>,
    buckets: Seq<HistogramCount>,
)
    requires
        is_stable_sort_of(first, buckets),
        is_stable_sort_of(second, buckets),
    ensures
        first == second,
    decreases first.len(),
{
    if first.len() == 0 {
        assert(first =~= second);
    } else {
        let a = first.drop_last();
        let b = second.drop_last();
        let last_a = first[first.len() - 1];
        let last_b = second[second.len() - 1];
        assert(first.last() == last_a && second.last() == last_b);
        assert(with_bound(first, last_b.less_than) == with_bound(second, last_b.less_than));
        assert(with_bound(first, last_a.less_than) == with_bound(second, last_a.less_than));
        assert(bound_le(last_b.less_than, last_a.less_than)) by {
            if forall|i: int| 0 <= i < first.len() ==> (#[trigger] first[i]).less_than
                != last_b.less_than {
                lemma_with_bound_absent(first, last_b.less_than);
            } else {
                let i = choose|i: int|
                    0 <= i < first.len() && (#[trigger] first[i]).less_than == last_b.less_than;
                assert(bound_le(first[i].less_than, first[first.len() - 1].less_than));
            }
        }
        assert(bound_le(last_a.less_than, last_b.less_than)) by {
            if forall|i: int| 0 <= i < second.len() ==> (#[trigger] second[i]).less_than
                != last_a.less_than {
                lemma_with_bound_absent(second, last_a.less_than);
            } else {
                let i = choose|i: int|
                    0 <= i < second.len() && (#[trigger] second[i]).less_than == last_a.less_than;
                assert(bound_le(second[i].less_than, second[second.len() - 1].less_than));
            }
        }
        assert(last_a.less_than == last_b.less_than);
        let top = last_a.less_than;
        assert(with_bound(first, top) == with_bound(a, top).push(last_a));
        assert(with_bound(second, top) == with_bound(b, top).push(last_b));
        assert(last_a == last_b && with_bound(a, top) == with_bound(b, top)) by {
            let x = with_bound(a, top).push(last_a);
            let y = with_bound(b, top).push(last_b);
            assert(x.last() == last_a && y.last() == last_b);
            assert(x.drop_last() =~= with_bound(a, top));
            assert(y.drop_last() =~= with_bound(b, top));
        }
        assert forall|bound: Bound| #[trigger] with_bound(b, bound) == with_bound(a, bound) by {
            assert(with_bound(first, bound) == with_bound(second, bound));
        }
        assert(bounds_sorted(a)) by {
            assert forall|i: int, j: int| 0 <= i <= j < a.len() implies bound_le(
                #[trigger] a[i].less_than,
                #[trigger] a[j].less_than,
            ) by {
                assert(bound_le(first[i].less_than, first[j].less_than));
            }
        }
        assert(bounds_sorted(b)) by {
            assert forall|i: int, j: int| 0 <= i <= j < b.len() implies bound_le(
                #[trigger] b[i].less_than,
                #[trigger] b[j].less_than,
            ) by {
                assert(bound_le(second[i].less_than, second[j].less_than));
            }
        }
        lemma_stable_sort_is_unique(a, b, a);
        assert(first =~= a.push(last_a));
        assert(second =~= b.push(last_b));
    }
}

} // verus!
