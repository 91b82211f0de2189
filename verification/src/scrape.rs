//! Samples of a metrics scrape and the latency histogram read out of them.

use vstd::prelude::*;

use vstd::string::*;

use crate::benchmark::Benchmark;
use crate::error::BenchmarkError;
use crate::histogram::{is_stable_sort_of, sort_by_bound, HistogramCount, HistogramSnapshot};

verus! {

/// One quantile of a summary metric, in whole units.
#[derive(Clone, Copy, Debug, PartialEq, Eq, Structural)]
pub struct SummaryCount {
    pub quantile: u64,
    pub count: u64,
}

/// The value of one sample, by kind.
#[derive(Clone, Debug, PartialEq, Eq)]
pub enum SampleValue {
    Counter(u64),
    Gauge(u64),
    Histogram(Vec<HistogramCount>),
    Summary(Vec<SummaryCount>),
    Untyped(u64),
}

/// One sample of a scrape: the metric's name and its value.
#[derive(Clone, Debug, PartialEq, Eq)]
pub struct Sample {
    pub metric: String,
    pub value: SampleValue,
}

/// What a sample contributes to the histogram of one metric.
#[derive(Clone, Copy, Debug, PartialEq, Eq, Structural)]
pub enum SampleRole {
    /// Its name is the metric's: it carries buckets.
    Buckets,
    /// Its name is the metric's followed by `_count`.
    Count,
    /// Its name is the metric's followed by `_sum`.
    Sum,
    /// Any other name: the sample is passed over.
    Other,
}

/// The role of a sample named `metric` in the histogram named `prefix`.
pub open spec fn role_of(metric: Seq<char>, prefix: Seq<char>) -> SampleRole {
    if metric == prefix {
        SampleRole::Buckets
    } else if metric == prefix + "_count"@ {
        SampleRole::Count
    } else if metric == prefix + "_sum"@ {
        SampleRole::Sum
    } else {
        SampleRole::Other
    }
}

/// The sample's value is of the kind that its role asks for.
pub open spec fn conforms(sample: Sample, prefix: Seq<char>) -> bool {
    match role_of(sample.metric@, prefix) {
        SampleRole::Buckets => sample.value is Histogram,
        SampleRole::Count | SampleRole::Sum => sample.value is Untyped,
        SampleRole::Other => true,
    }
}

/// Sample `at` is the first whose value is not of the kind that its role
/// asks for.
pub open spec fn first_offence(samples: Seq<Sample>, prefix: Seq<char>, at: int) -> bool {
    &&& 0 <= at < samples.len()
    &&& !conforms(samples[at], prefix)
    &&& forall|i: int| 0 <= i < at ==> conforms(#[trigger] samples[i], prefix)
}

/// The buckets of all samples in the role of buckets, in the order of the
/// samples.
pub open spec fn gathered_buckets(samples: Seq<Sample>, prefix: Seq<char>) -> Seq<HistogramCount>
    decreases samples.len(),
{
    if samples.len() == 0 {
        Seq::empty()
    } else {
        let rest = gathered_buckets(samples.drop_last(), prefix);
        match (role_of(samples.last().metric@, prefix), samples.last().value) {
            (SampleRole::Buckets, SampleValue::Histogram(buckets)) => rest + buckets@,
            _ => rest,
        }
    }
}

/// The number carried by the last sample in the given role, if there is
/// one.
pub open spec fn last_number(samples: Seq<Sample>, prefix: Seq<char>, role: SampleRole) -> Option<
    u64,
>
    decreases samples.len(),
{
    if samples.len() == 0 {
        None
    } else {
        match samples.last().value {
            SampleValue::Untyped(number) if role_of(samples.last().metric@, prefix) == role => Some(
                number,
            ),
            _ => last_number(samples.drop_last(), prefix, role),
        }
    }
}

/// Two sample values are of one kind and hold the same numbers.
pub open spec fn same_value(a: SampleValue, b: SampleValue) -> bool {
    match (a, b) {
        (SampleValue::Counter(x), SampleValue::Counter(y)) => x == y,
        (SampleValue::Gauge(x), SampleValue::Gauge(y)) => x == y,
        (SampleValue::Histogram(x), SampleValue::Histogram(y)) => x@ == y@,
        (SampleValue::Summary(x), SampleValue::Summary(y)) => x@ == y@,
        (SampleValue::Untyped(x), SampleValue::Untyped(y)) => x == y,
        _ => false,
    }
}

/// Copies a list of buckets.
fn copy_buckets(buckets: &Vec<HistogramCount>) -> (copy: Vec<HistogramCount>)
    ensures
        copy@ == buckets@,
{
    let mut copy: Vec<HistogramCount> = Vec::new();
    let mut i: usize = 0;
    while i < buckets.len()
        invariant
            i <= buckets@.len(),
            copy@ == buckets@.take(i as int),
        decreases buckets@.len() - i,
    {
        copy.push(buckets[i]);
        assert(buckets@.take(i as int).push(buckets@[i as int]) =~= buckets@.take(i + 1));
        i += 1;
    }
    assert(buckets@.take(i as int) =~= buckets@);
    copy
}

/// Copies a list of summary quantiles.
fn copy_summary(counts: &Vec<SummaryCount>) -> (copy: Vec<SummaryCount>)
    ensures
        copy@ == counts@,
{
    let mut copy: Vec<SummaryCount> = Vec::new();
    let mut i: usize = 0;
    while i < counts.len()
        invariant
            i <= counts@.len(),
            copy@ == counts@.take(i as int),
        decreases counts@.len() - i,
    {
        copy.push(counts[i]);
        assert(counts@.take(i as int).push(counts@[i as int]) =~= counts@.take(i + 1));
        i += 1;
    }
    assert(counts@.take(i as int) =~= counts@);
    copy
}

impl SampleValue {
    /// A copy of this value.
    pub fn duplicate(&self) -> (copy: SampleValue)
        ensures
            same_value(copy, *self),
    {
        match self {
            SampleValue::Counter(x) => SampleValue::Counter(*x),
            SampleValue::Gauge(x) => SampleValue::Gauge(*x),
            SampleValue::Histogram(buckets) => SampleValue::Histogram(copy_buckets(buckets)),
            SampleValue::Summary(counts) => SampleValue::Summary(copy_summary(counts)),
            SampleValue::Untyped(x) => SampleValue::Untyped(*x),
        }
    }
}

/// `error` is what the offending sample `at` is answered with: the kind of
/// value that was expected, holding a copy of the value that was found.
pub open spec fn offence_error(
    samples: Seq<Sample>,
    prefix: Seq<char>,
    at: int,
    error: BenchmarkError,
) -> bool {
    match error {
        BenchmarkError::ExpectedHistogramValue(found) => role_of(samples[at].metric@, prefix)
            == SampleRole::Buckets && same_value(found, samples[at].value),
        BenchmarkError::ExpectedUntypedValue(found) => role_of(samples[at].metric@, prefix)
            != SampleRole::Buckets && same_value(found, samples[at].value),
        _ => false,
    }
}

/// `snapshot` is the histogram named `prefix` that `samples` hold: every
/// sample is of the kind its role asks for, count and sum are those of the
/// last sample in that role, and the buckets are all that were found, by
/// boundary.
pub open spec fn is_histogram_of(
    samples: Seq<Sample>,
    prefix: Seq<char>,
    snapshot: HistogramSnapshot,
) -> bool {
    &&& forall|i: int| 0 <= i < samples.len() ==> conforms(#[trigger] samples[i], prefix)
    &&& last_number(samples, prefix, SampleRole::Count) == Some(snapshot.count)
    &&& last_number(samples, prefix, SampleRole::Sum) == Some(snapshot.sum)
    &&& gathered_buckets(samples, prefix).len() > 0
    &&& is_stable_sort_of(snapshot.buckets@, gathered_buckets(samples, prefix))
}

/// Something of the histogram named `prefix` is missing from `samples`:
/// its count, its sum, or any bucket.
pub open spec fn is_incomplete(samples: Seq<Sample>, prefix: Seq<char>) -> bool {
    ||| last_number(samples, prefix, SampleRole::Count) is None
    ||| last_number(samples, prefix, SampleRole::Sum) is None
    ||| gathered_buckets(samples, prefix).len() == 0
}

/// `error` is why `samples` yield no histogram named `prefix`: the first
/// sample of the wrong kind if there is one, else that something is
/// missing.
pub open spec fn is_parse_failure(
    samples: Seq<Sample>,
    prefix: Seq<char>,
    error: BenchmarkError,
) -> bool {
    if exists|at: int| first_offence(samples, prefix, at) {
        exists|at: int| #[trigger]
            first_offence(samples, prefix, at) && offence_error(samples, prefix, at, error)
    } else {
        error == BenchmarkError::IncompleteHistogramData && is_incomplete(samples, prefix)
    }
}

impl Benchmark {
    /// Reads the histogram named `metric_prefix` out of the samples of one
    /// scrape.
    ///
    /// Samples named `metric_prefix` give the buckets, the last ones named
    /// `metric_prefix` with `_count` and with `_sum` give count and sum. The
    /// first sample under one of these names whose value is of another kind is
    /// an error. Without a bucket, a count or a sum the data is incomplete. The
    /// buckets come out sorted by boundary.
    pub fn parse_histogram(samples: &Vec<Sample>, metric_prefix: &str) -> (result: Result<
        HistogramSnapshot,
        BenchmarkError,
    >)
        ensures
            match result {
                Ok(snapshot) => is_histogram_of(samples@, metric_prefix@, snapshot),
                Err(error) => is_parse_failure(samples@, metric_prefix@, error),
            },
    {
        let buckets_name = String::from_str(metric_prefix);
        let count_name = String::from_str(metric_prefix).concat("_count");
        let sum_name = String::from_str(metric_prefix).concat("_sum");
        let mut buckets: Vec<HistogramCount> = Vec::new();
        let mut total_count: Option<u64> = None;
        let mut total_sum: Option<u64> = None;
        let ghost prefix = metric_prefix@;
        let mut i: usize = 0;
        assert(samples@.take(0) =~= Seq::<Sample>::empty());
        while i < samples.len()
            invariant
                i <= samples@.len(),
                prefix == metric_prefix@,
                buckets_name@ == prefix,
                count_name@ == prefix + "_count"@,
                sum_name@ == prefix + "_sum"@,
                forall|j: int| 0 <= j < i ==> conforms(#[trigger] samples@[j], prefix),
                buckets@ == gathered_buckets(samples@.take(i as int), prefix),
                total_count == last_number(samples@.take(i as int), prefix, SampleRole::Count),
                total_sum == last_number(samples@.take(i as int), prefix, SampleRole::Sum),
            decreases samples@.len() - i,
        {
            let sample = &samples[i];
            proof {
                assert(samples@.take(i + 1).drop_last() =~= samples@.take(i as int));
                assert(samples@.take(i + 1).last() == samples@[i as int]);
            }
            if sample.metric == buckets_name {
                match &sample.value {
                    SampleValue::Histogram(histogram) => {
                        let mut j: usize = 0;
                        let ghost before = buckets@;
                        while j < histogram.len()
                            invariant
                                j <= histogram@.len(),
                                buckets@ == before + histogram@.take(j as int),
                            decreases histogram@.len() - j,
                        {
                            buckets.push(histogram[j]);
                            assert(histogram@.take(j as int).push(histogram@[j as int])
                                =~= histogram@.take(j + 1));
                            assert(before + histogram@.take(j + 1) =~= (before + histogram@.take(
                                j as int,
                            )).push(histogram@[j as int]));
                            j += 1;
                        }
                        assert(histogram@.take(j as int) =~= histogram@);
                    },
                    _ => {
                        let error = BenchmarkError::ExpectedHistogramValue(sample.value.duplicate());
                        assert(first_offence(samples@, prefix, i as int));
                        assert(offence_error(samples@, prefix, i as int, error));
                        return Err(error);
                    },
                }
            } else if sample.metric == count_name {
                match &sample.value {
                    SampleValue::Untyped(count) => {
                        total_count = Some(*count);
                    },
                    _ => {
                        let error = BenchmarkError::ExpectedUntypedValue(sample.value.duplicate());
                        assert(first_offence(samples@, prefix, i as int));
                        assert(offence_error(samples@, prefix, i as int, error));
                        return Err(error);
                    },
                }
            } else if sample.metric == sum_name {
                match &sample.value {
                    SampleValue::Untyped(sum) => {
                        total_sum = Some(*sum);
                    },
                    _ => {
                        let error = BenchmarkError::ExpectedUntypedValue(sample.value.duplicate());
                        assert(first_offence(samples@, prefix, i as int));
                        assert(offence_error(samples@, prefix, i as int, error));
                        return Err(error);
                    },
                }
            }
            i += 1;
        }
        assert(samples@.take(i as int) =~= samples@);
        proof {
            if exists|at: int| first_offence(samples@, prefix, at) {
                let at = choose|at: int| first_offence(samples@, prefix, at);
                assert(conforms(samples@[at], prefix));
            }
        }
        match (total_count, total_sum) {
            (Some(count), Some(sum)) => {
                if buckets.len() == 0 {
                    Err(BenchmarkError::IncompleteHistogramData)
                } else {
                    let sorted = sort_by_bound(&buckets);
                    Ok(HistogramSnapshot { buckets: sorted, count, sum })
                }
            },
            _ => Err(BenchmarkError::IncompleteHistogramData),
        }
    }
}

} // verus!
