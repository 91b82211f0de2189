//! The errors of the benchmark's health check and latency bookkeeping.

use hdrhistogram::{CreationError, RecordError};
use vstd::prelude::*;

use crate::histogram::Bound;
use crate::scrape::SampleValue;

verus! {

/// What can go wrong while a benchmark measures itself and its validators.
#[derive(Debug, PartialEq, Eq)]
pub enum BenchmarkError {
    /// The current histogram holds fewer observations than the previous one.
    HistogramCountMismatch,
    /// The histogram metric carried a value of another kind.
    ExpectedHistogramValue(SampleValue),
    /// The count or sum metric carried a value of another kind.
    ExpectedUntypedValue(SampleValue),
    /// Buckets, count or sum were missing from the scrape.
    IncompleteHistogramData,
    /// No bucket reaches the rank that the quantile asks for.
    CouldNotComputeQuantile,
    /// The sum of the current histogram's observations is less than that of
    /// the previous one.
    HistogramSumMismatch,
    /// Two snapshots disagree on the bucket at some position: the boundary
    /// that the previous one has there, then that of the current one, with
    /// none where the list of buckets has ended.
    BucketBoundariesDoNotMatch(Option<Bound>, Option<Bound>),
    /// No earlier snapshot is held for the validator at this address.
    PreviousHistogramSnapshotDoesNotExist(String),
    /// Nothing was observed in the interval.
    NoDataYetForP99Calculation,
    /// The bucket that should hold the quantile holds no observation.
    UnexpectedEmptyBucket,
    /// A latency histogram could not be made.
    HistogramCreationError(CreationError),
    /// A latency could not be recorded.
    HistogramRecordError(RecordError),
}

} // verus!
