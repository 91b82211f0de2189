//! Per-block latency records and the high-dynamic-range histograms that
//! collect them, one histogram per stage.

use hdrhistogram::{CreationError, Histogram, RecordError};
use vstd::multiset::Multiset;
use vstd::prelude::*;

use crate::error::BenchmarkError;
use crate::benchmark::Benchmark;
use crate::quantile::Quantile;

verus! {

/// The number of significant decimal digits that the stage histograms keep.
pub const SIGNIFICANT_FIGURES: u8 = 2;

/// A high-dynamic-range histogram of latencies in milliseconds: an
/// `hdrhistogram::Histogram` with 64-bit counts.
#[verifier::external_body]
pub struct StageHistogram {
    histogram: Histogram<u64>,
}

/// `hdrhistogram::CreationError`, carried as it comes: why a histogram
/// could not be made.
#[verifier::external_type_specification]
#[verifier::external_body]
pub struct ExCreationError(CreationError);

/// `hdrhistogram::RecordError`, carried as it comes: why a value could
/// not be recorded.
#[verifier::external_type_specification]
#[verifier::external_body]
pub struct ExRecordError(RecordError);

/// The values that were recorded into a histogram, each as often as it was
/// recorded. The histogram itself keeps them only to its precision.
pub uninterp spec fn recorded_values(histogram: StageHistogram) -> Multiset<u64>;

/// The number of significant decimal digits that a histogram was made
/// with: what `Histogram::sigfig` returns.
pub uninterp spec fn significant_figures(histogram: StageHistogram) -> u8;

/// What `Histogram::value_at_percentile` returns for a histogram of the
/// given precision into which `values` were recorded.
pub uninterp spec fn percentile_value(sigfig: u8, values: Multiset<u64>, percentile: u8) -> u64;

/// `Histogram::<u64>::new`: an empty, auto-resizing histogram of the given
/// precision, which distinguishes values from 1 on. Where `usize` has at
/// least 32 bits, the call fails exactly when more than five significant
/// digits are asked for.
#[verifier::external_body]
fn new_histogram(sigfig: u8) -> (made: Result<StageHistogram, CreationError>)
    ensures
        made is Ok <==> sigfig <= 5,
        made matches Ok(histogram) ==> recorded_values(histogram) == Multiset::<u64>::empty()
            && significant_figures(histogram) == sigfig,
{
    Histogram::<u64>::new(sigfig).map(|histogram| StageHistogram { histogram })
}

/// `Histogram::record` on a histogram made by `Histogram::new`, which
/// resizes itself to take any value: the value is recorded once more and
/// the precision stays. Where `usize` has at least 32 bits the resized
/// array always fits, and the call succeeds.
#[verifier::external_body]
fn record_value(histogram: &mut StageHistogram, value: u64) -> (recorded: Result<(), RecordError>)
    ensures
        recorded is Ok,
        significant_figures(*final(histogram)) == significant_figures(*old(histogram)),
        recorded_values(*final(histogram)) == recorded_values(*old(histogram)).insert(value),
{
    histogram.histogram.record(value)
}

/// `Histogram::value_at_percentile`, with the percentile given as a whole
/// number. A higher percentile of one histogram never has a lower value:
/// the value is found at the first count that reaches the percentile's
/// share of all counts.
#[verifier::external_body]
fn value_at_percentile(histogram: &StageHistogram, percentile: u8) -> (value: u64)
    ensures
        value == percentile_value(
            significant_figures(*histogram),
            recorded_values(*histogram),
            percentile,
        ),
        forall|lower: u8|
            lower <= percentile ==> #[trigger] percentile_value(
                significant_figures(*histogram),
                recorded_values(*histogram),
                lower,
            ) <= value,
{
    histogram.histogram.value_at_percentile(percentile.into())
}

/// How long the stages of submitting one block proposal took, in
/// milliseconds.
#[derive(Clone, Copy, Debug, PartialEq, Eq, Structural)]
pub struct SubmitFastBlockProposalTimings {
    pub creating_proposal_ms: u64,
    pub stage_block_execution_ms: u64,
    pub creating_confirmed_block_ms: u64,
    pub submitting_block_proposal_ms: u64,
}

/// How long the steps of producing one block took, in milliseconds.
#[derive(Clone, Copy, Debug, PartialEq, Eq, Structural)]
pub struct BlockTimeTimings {
    pub get_pending_message_bundles_ms: u64,
    pub submit_fast_block_proposal_ms: u64,
    pub submit_fast_block_proposal_timings: SubmitFastBlockProposalTimings,
    pub communicate_chain_updates_ms: u64,
}

/// How long one block took, in all and step by step, in milliseconds.
#[derive(Clone, Copy, Debug, PartialEq, Eq, Structural)]
pub struct BlockTimings {
    pub block_time_ms: u64,
    pub block_time_timings: BlockTimeTimings,
}

impl SubmitFastBlockProposalTimings {
    /// The four durations, in the order in which they are recorded.
    pub open spec fn values(self) -> Seq<u64> {
        seq![
            self.creating_proposal_ms,
            self.stage_block_execution_ms,
            self.creating_confirmed_block_ms,
            self.submitting_block_proposal_ms,
        ]
    }
}

impl BlockTimeTimings {
    /// The seven durations, in the order in which they are recorded.
    pub open spec fn values(self) -> Seq<u64> {
        seq![
            self.get_pending_message_bundles_ms,
            self.submit_fast_block_proposal_ms,
            self.submit_fast_block_proposal_timings.creating_proposal_ms,
            self.submit_fast_block_proposal_timings.stage_block_execution_ms,
            self.submit_fast_block_proposal_timings.creating_confirmed_block_ms,
            self.submit_fast_block_proposal_timings.submitting_block_proposal_ms,
            self.communicate_chain_updates_ms,
        ]
    }
}

impl BlockTimings {
    /// The eight durations, in the order in which they are recorded.
    pub open spec fn values(self) -> Seq<u64> {
        seq![
            self.block_time_ms,
            self.block_time_timings.get_pending_message_bundles_ms,
            self.block_time_timings.submit_fast_block_proposal_ms,
            self.block_time_timings.submit_fast_block_proposal_timings.creating_proposal_ms,
            self.block_time_timings.submit_fast_block_proposal_timings.stage_block_execution_ms,
            self.block_time_timings.submit_fast_block_proposal_timings.creating_confirmed_block_ms,
            self.block_time_timings.submit_fast_block_proposal_timings.submitting_block_proposal_ms,
            self.block_time_timings.communicate_chain_updates_ms,
        ]
    }
}

/// Every histogram of `stages` is empty and keeps two significant digits.
pub open spec fn all_fresh(stages: Seq<StageHistogram>) -> bool {
    forall|i: int|
        0 <= i < stages.len() ==> recorded_values(#[trigger] stages[i]) == Multiset::<u64>::empty()
            && significant_figures(stages[i]) == SIGNIFICANT_FIGURES
}

/// From `before` to `after`, every histogram took the value at its
/// position, once, and kept its precision.
pub open spec fn is_recording(
    before: Seq<StageHistogram>,
    after: Seq<StageHistogram>,
    values: Seq<u64>,
) -> bool {
    &&& after.len() == before.len()
    &&& forall|i: int|
        0 <= i < before.len() ==> significant_figures(#[trigger] after[i]) == significant_figures(
            before[i],
        ) && recorded_values(after[i]) == recorded_values(before[i]).insert(values[i])
}

/// `values` holds, position by position, what each histogram of `stages`
/// estimates for `quantile`, and no histogram estimates more for a lower
/// quantile.
pub open spec fn are_quantiles_of(values: Seq<u64>, stages: Seq<StageHistogram>, quantile: Quantile) -> bool {
    &&& values.len() == stages.len()
    &&& forall|i: int|
        0 <= i < stages.len() ==> #[trigger] values[i] == percentile_value(
            significant_figures(stages[i]),
            recorded_values(stages[i]),
            quantile.percent,
        )
    &&& forall|i: int, lower: u8|
        0 <= i < stages.len() && lower <= quantile.percent ==> #[trigger] percentile_value(
            significant_figures(stages[i]),
            recorded_values(stages[i]),
            lower,
        ) <= values[i]
}

/// The histograms of the stages of submitting a block proposal.
pub struct SubmitFastBlockProposalTimingsHistograms {
    pub creating_proposal_histogram: StageHistogram,
    pub stage_block_execution_histogram: StageHistogram,
    pub creating_confirmed_block_histogram: StageHistogram,
    pub submitting_block_proposal_histogram: StageHistogram,
}

impl SubmitFastBlockProposalTimingsHistograms {
    /// The four histograms, in the order in which they are recorded into.
    pub open spec fn stages(&self) -> Seq<StageHistogram> {
        seq![
            self.creating_proposal_histogram,
            self.stage_block_execution_histogram,
            self.creating_confirmed_block_histogram,
            self.submitting_block_proposal_histogram,
        ]
    }

    /// Four empty histograms.
    pub fn new() -> (made: Result<Self, BenchmarkError>)
        ensures
            made matches Ok(histograms) && all_fresh(histograms.stages()),
    {
        let creating_proposal_histogram = match new_histogram(SIGNIFICANT_FIGURES) {
            Ok(histogram) => histogram,
            Err(error) => {
                return Err(BenchmarkError::HistogramCreationError(error));
            },
        };
        let stage_block_execution_histogram = match new_histogram(SIGNIFICANT_FIGURES) {
            Ok(histogram) => histogram,
            Err(error) => {
                return Err(BenchmarkError::HistogramCreationError(error));
            },
        };
        let creating_confirmed_block_histogram = match new_histogram(SIGNIFICANT_FIGURES) {
            Ok(histogram) => histogram,
            Err(error) => {
                return Err(BenchmarkError::HistogramCreationError(error));
            },
        };
        let submitting_block_proposal_histogram = match new_histogram(SIGNIFICANT_FIGURES) {
            Ok(histogram) => histogram,
            Err(error) => {
                return Err(BenchmarkError::HistogramCreationError(error));
            },
        };
        Ok(
            Self {
                creating_proposal_histogram,
                stage_block_execution_histogram,
                creating_confirmed_block_histogram,
                submitting_block_proposal_histogram,
            },
        )
    }

    /// Records each duration into the histogram of its stage.
    pub fn record(
        &mut self,
        submit_fast_block_proposal_timings: SubmitFastBlockProposalTimings,
    ) -> (result: Result<(), BenchmarkError>)
        ensures
            result is Ok,
            is_recording(
                old(self).stages(),
                final(self).stages(),
                submit_fast_block_proposal_timings.values(),
            ),
    {
        match record_value(
            &mut self.creating_proposal_histogram,
            submit_fast_block_proposal_timings.creating_proposal_ms,
        ) {
            Ok(_) => {},
            Err(error) => {
                return Err(BenchmarkError::HistogramRecordError(error));
            },
        }
        match record_value(
            &mut self.stage_block_execution_histogram,
            submit_fast_block_proposal_timings.stage_block_execution_ms,
        ) {
            Ok(_) => {},
            Err(error) => {
                return Err(BenchmarkError::HistogramRecordError(error));
            },
        }
        match record_value(
            &mut self.creating_confirmed_block_histogram,
            submit_fast_block_proposal_timings.creating_confirmed_block_ms,
        ) {
            Ok(_) => {},
            Err(error) => {
                return Err(BenchmarkError::HistogramRecordError(error));
            },
        }
        match record_value(
            &mut self.submitting_block_proposal_histogram,
            submit_fast_block_proposal_timings.submitting_block_proposal_ms,
        ) {
            Ok(_) => {},
            Err(error) => {
                return Err(BenchmarkError::HistogramRecordError(error));
            },
        }
        Ok(())
    }

    /// What each histogram estimates for `quantile`.
    pub fn quantiles(&self, quantile: Quantile) -> (estimates: SubmitFastBlockProposalTimings)
        ensures
            are_quantiles_of(estimates.values(), self.stages(), quantile),
    {
        SubmitFastBlockProposalTimings {
            creating_proposal_ms: value_at_percentile(
                &self.creating_proposal_histogram,
                quantile.percent,
            ),
            stage_block_execution_ms: value_at_percentile(
                &self.stage_block_execution_histogram,
                quantile.percent,
            ),
            creating_confirmed_block_ms: value_at_percentile(
                &self.creating_confirmed_block_histogram,
                quantile.percent,
            ),
            submitting_block_proposal_ms: value_at_percentile(
                &self.submitting_block_proposal_histogram,
                quantile.percent,
            ),
        }
    }
}

/// The histograms of the steps of producing a block.
pub struct BlockTimeTimingsHistograms {
    pub get_pending_message_bundles_histogram: StageHistogram,
    pub submit_fast_block_proposal_histogram: StageHistogram,
    pub submit_fast_block_proposal_timings_histograms: SubmitFastBlockProposalTimingsHistograms,
    pub communicate_chain_updates_histogram: StageHistogram,
}

impl BlockTimeTimingsHistograms {
    /// The seven histograms, in the order in which they are recorded into.
    pub open spec fn stages(&self) -> Seq<StageHistogram> {
        seq![
            self.get_pending_message_bundles_histogram,
            self.submit_fast_block_proposal_histogram,
            self.submit_fast_block_proposal_timings_histograms.creating_proposal_histogram,
            self.submit_fast_block_proposal_timings_histograms.stage_block_execution_histogram,
            self.submit_fast_block_proposal_timings_histograms.creating_confirmed_block_histogram,
            self.submit_fast_block_proposal_timings_histograms.submitting_block_proposal_histogram,
            self.communicate_chain_updates_histogram,
        ]
    }

    /// Seven empty histograms.
    pub fn new() -> (made: Result<Self, BenchmarkError>)
        ensures
            made matches Ok(histograms) && all_fresh(histograms.stages()),
    {
        let get_pending_message_bundles_histogram = match new_histogram(SIGNIFICANT_FIGURES) {
            Ok(histogram) => histogram,
            Err(error) => {
                return Err(BenchmarkError::HistogramCreationError(error));
            },
        };
        let submit_fast_block_proposal_histogram = match new_histogram(SIGNIFICANT_FIGURES) {
            Ok(histogram) => histogram,
            Err(error) => {
                return Err(BenchmarkError::HistogramCreationError(error));
            },
        };
        let submit_fast_block_proposal_timings_histograms =
            match SubmitFastBlockProposalTimingsHistograms::new() {
            Ok(histograms) => histograms,
            Err(error) => {
                return Err(error);
            },
        };
        let communicate_chain_updates_histogram = match new_histogram(SIGNIFICANT_FIGURES) {
            Ok(histogram) => histogram,
            Err(error) => {
                return Err(BenchmarkError::HistogramCreationError(error));
            },
        };
        let made = Self {
            get_pending_message_bundles_histogram,
            submit_fast_block_proposal_histogram,
            submit_fast_block_proposal_timings_histograms,
            communicate_chain_updates_histogram,
        };
        proof {
            let inner = made.submit_fast_block_proposal_timings_histograms.stages();
            assert forall|i: int| 0 <= i < made.stages().len() implies recorded_values(
                #[trigger] made.stages()[i],
            ) == Multiset::<u64>::empty() && significant_figures(made.stages()[i])
                == SIGNIFICANT_FIGURES by {
                if 2 <= i < 6 {
                    assert(made.stages()[i] == inner[i - 2]);
                }
            }
        }
        Ok(made)
    }

    /// Records each duration into the histogram of its step.
    pub fn record(&mut self, block_time_timings: BlockTimeTimings) -> (result: Result<
        (),
        BenchmarkError,
    >)
        ensures
            result is Ok,
            is_recording(old(self).stages(), final(self).stages(), block_time_timings.values()),
    {
        let ghost before = self.stages();
        let ghost values = block_time_timings.values();
        match record_value(
            &mut self.get_pending_message_bundles_histogram,
            block_time_timings.get_pending_message_bundles_ms,
        ) {
            Ok(_) => {},
            Err(error) => {
                return Err(BenchmarkError::HistogramRecordError(error));
            },
        }
        match record_value(
            &mut self.submit_fast_block_proposal_histogram,
            block_time_timings.submit_fast_block_proposal_ms,
        ) {
            Ok(_) => {},
            Err(error) => {
                return Err(BenchmarkError::HistogramRecordError(error));
            },
        }
        let ghost inner_before = self.submit_fast_block_proposal_timings_histograms.stages();
        let ghost inner_values = block_time_timings.submit_fast_block_proposal_timings.values();
        match self.submit_fast_block_proposal_timings_histograms.record(
            block_time_timings.submit_fast_block_proposal_timings,
        ) {
            Ok(_) => {},
            Err(error) => {
                return Err(error);
            },
        }
        let ghost inner_after = self.submit_fast_block_proposal_timings_histograms.stages();
        match record_value(
            &mut self.communicate_chain_updates_histogram,
            block_time_timings.communicate_chain_updates_ms,
        ) {
            Ok(_) => {},
            Err(error) => {
                return Err(BenchmarkError::HistogramRecordError(error));
            },
        }
        proof {
            assert forall|i: int| 0 <= i < before.len() implies significant_figures(
                #[trigger] self.stages()[i],
            ) == significant_figures(before[i]) && recorded_values(self.stages()[i])
                == recorded_values(before[i]).insert(values[i]) by {
                if 2 <= i < 6 {
                    assert(self.stages()[i] == inner_after[i - 2]);
                    assert(before[i] == inner_before[i - 2]);
                    assert(values[i] == inner_values[i - 2]);
                }
            }
        }
        Ok(())
    }

    /// What each histogram estimates for `quantile`.
    pub fn quantiles(&self, quantile: Quantile) -> (estimates: BlockTimeTimings)
        ensures
            are_quantiles_of(estimates.values(), self.stages(), quantile),
    {
        let estimates = BlockTimeTimings {
            get_pending_message_bundles_ms: value_at_percentile(
                &self.get_pending_message_bundles_histogram,
                quantile.percent,
            ),
            submit_fast_block_proposal_ms: value_at_percentile(
                &self.submit_fast_block_proposal_histogram,
                quantile.percent,
            ),
            submit_fast_block_proposal_timings: self.submit_fast_block_proposal_timings_histograms.quantiles(
                quantile,
            ),
            communicate_chain_updates_ms: value_at_percentile(
                &self.communicate_chain_updates_histogram,
                quantile.percent,
            ),
        };
        proof {
            let inner = self.submit_fast_block_proposal_timings_histograms.stages();
            let inner_values = estimates.submit_fast_block_proposal_timings.values();
            assert forall|i: int| 0 <= i < self.stages().len() implies #[trigger] estimates.values()[i]
                == percentile_value(
                significant_figures(self.stages()[i]),
                recorded_values(self.stages()[i]),
                quantile.percent,
            ) by {
                if 2 <= i < 6 {
                    assert(self.stages()[i] == inner[i - 2]);
                    assert(estimates.values()[i] == inner_values[i - 2]);
                }
            }
            assert forall|i: int, lower: u8|
                0 <= i < self.stages().len() && lower <= quantile.percent implies #[trigger] percentile_value(
                significant_figures(self.stages()[i]),
                recorded_values(self.stages()[i]),
                lower,
            ) <= estimates.values()[i] by {
                if 2 <= i < 6 {
                    assert(self.stages()[i] == inner[i - 2]);
                    assert(estimates.values()[i] == inner_values[i - 2]);
                    assert(percentile_value(
                        significant_figures(inner[i - 2]),
                        recorded_values(inner[i - 2]),
                        lower,
                    ) <= inner_values[i - 2]);
                }
            }
        }
        estimates
    }
}

/// The histograms of whole block times and of their steps.
pub struct BlockTimingsHistograms {
    pub block_time_histogram: StageHistogram,
    pub block_time_timings_histograms: BlockTimeTimingsHistograms,
}

impl BlockTimingsHistograms {
    /// The eight histograms, in the order in which they are recorded into.
    pub open spec fn stages(&self) -> Seq<StageHistogram> {
        seq![self.block_time_histogram] + self.block_time_timings_histograms.stages()
    }

    /// Eight empty histograms.
    pub fn new() -> (made: Result<Self, BenchmarkError>)
        ensures
            made matches Ok(histograms) && all_fresh(histograms.stages()),
    {
        let block_time_histogram = match new_histogram(SIGNIFICANT_FIGURES) {
            Ok(histogram) => histogram,
            Err(error) => {
                return Err(BenchmarkError::HistogramCreationError(error));
            },
        };
        let block_time_timings_histograms = match BlockTimeTimingsHistograms::new() {
            Ok(histograms) => histograms,
            Err(error) => {
                return Err(error);
            },
        };
        let made = Self { block_time_histogram, block_time_timings_histograms };
        proof {
            let inner = made.block_time_timings_histograms.stages();
            assert forall|i: int| 0 <= i < made.stages().len() implies recorded_values(
                #[trigger] made.stages()[i],
            ) == Multiset::<u64>::empty() && significant_figures(made.stages()[i])
                == SIGNIFICANT_FIGURES by {
                if 1 <= i {
                    assert(made.stages()[i] == inner[i - 1]);
                }
            }
        }
        Ok(made)
    }

    /// Records each duration into the histogram of its step.
    pub fn record(&mut self, block_timings: BlockTimings) -> (result: Result<(), BenchmarkError>)
        ensures
            result is Ok,
            is_recording(old(self).stages(), final(self).stages(), block_timings.values()),
    {
        let ghost before = self.stages();
        let ghost values = block_timings.values();
        match record_value(&mut self.block_time_histogram, block_timings.block_time_ms) {
            Ok(_) => {},
            Err(error) => {
                return Err(BenchmarkError::HistogramRecordError(error));
            },
        }
        let ghost inner_before = self.block_time_timings_histograms.stages();
        let ghost inner_values = block_timings.block_time_timings.values();
        let inner = self.block_time_timings_histograms.record(block_timings.block_time_timings);
        let ghost inner_after = self.block_time_timings_histograms.stages();
        proof {
            assert forall|i: int| 0 <= i < before.len() implies significant_figures(
                #[trigger] self.stages()[i],
            ) == significant_figures(before[i]) && recorded_values(self.stages()[i])
                == recorded_values(before[i]).insert(values[i]) by {
                if 1 <= i {
                    assert(self.stages()[i] == inner_after[i - 1]);
                    assert(before[i] == inner_before[i - 1]);
                    assert(values[i] == inner_values[i - 1]);
                }
            }
        }
        inner
    }

    /// What each histogram estimates for `quantile`.
    pub fn quantiles(&self, quantile: Quantile) -> (estimates: BlockTimings)
        ensures
            are_quantiles_of(estimates.values(), self.stages(), quantile),
    {
        let estimates = BlockTimings {
            block_time_ms: value_at_percentile(&self.block_time_histogram, quantile.percent),
            block_time_timings: self.block_time_timings_histograms.quantiles(quantile),
        };
        proof {
            let inner = self.block_time_timings_histograms.stages();
            let inner_values = estimates.block_time_timings.values();
            assert forall|i: int| 0 <= i < self.stages().len() implies #[trigger] estimates.values()[i]
                == percentile_value(
                significant_figures(self.stages()[i]),
                recorded_values(self.stages()[i]),
                quantile.percent,
            ) by {
                if 1 <= i {
                    assert(self.stages()[i] == inner[i - 1]);
                    assert(estimates.values()[i] == inner_values[i - 1]);
                }
            }
            assert forall|i: int, lower: u8|
                0 <= i < self.stages().len() && lower <= quantile.percent implies #[trigger] percentile_value(
                significant_figures(self.stages()[i]),
                recorded_values(self.stages()[i]),
                lower,
            ) <= estimates.values()[i] by {
                if 1 <= i {
                    assert(self.stages()[i] == inner[i - 1]);
                    assert(estimates.values()[i] == inner_values[i - 1]);
                    assert(percentile_value(
                        significant_figures(inner[i - 1]),
                        recorded_values(inner[i - 1]),
                        lower,
                    ) <= inner_values[i - 1]);
                }
            }
        }
        estimates
    }
}

/// The latency collector reports quantiles when this many seconds have
/// passed since its last report.
pub const QUANTILE_REPORT_INTERVAL_SECS: u64 = 5;

/// The quantiles that the latency collector reports, in percent and in
/// the order of the report.
pub open spec fn reported_percents() -> Seq<u8> {
    seq![99u8, 95u8, 90u8, 50u8]
}

/// What every stage histogram estimates for one quantile.
#[derive(Clone, Copy, Debug, PartialEq, Eq, Structural)]
pub struct QuantileReport {
    pub quantile: Quantile,
    pub estimates: BlockTimings,
}

/// What the latency collector does after it was handed one block's
/// timings.
#[derive(Debug, PartialEq, Eq)]
pub enum CollectorStep {
    /// The benchmark was cancelled: the collector ends.
    Stop,
    /// The timings were recorded; nothing is due.
    Continue,
    /// The timings were recorded and a report is due: these lines are
    /// logged and the time since the last report starts anew.
    Report(Vec<QuantileReport>),
}

/// `reports` holds, for each reported quantile in order, what the
/// histograms `stages` estimate for it. Since the quantiles are reported
/// from the highest to the lowest, no estimate of a later report lies
/// above that of an earlier one for the same histogram.
pub open spec fn is_report_of(reports: Seq<QuantileReport>, stages: Seq<StageHistogram>) -> bool {
    &&& reports.len() == reported_percents().len()
    &&& forall|j: int|
        0 <= j < reports.len() ==> (#[trigger] reports[j]).quantile.percent
            == reported_percents()[j] && are_quantiles_of(
            reports[j].estimates.values(),
            stages,
            reports[j].quantile,
        )
    &&& forall|j: int, k: int, i: int|
        #![trigger reports[k].estimates.values()[i], reports[j].estimates.values()[i]]
        0 <= j <= k < reports.len() && 0 <= i < stages.len() ==> reports[k].estimates.values()[i]
            <= reports[j].estimates.values()[i]
}

impl BlockTimingsHistograms {
    /// What every histogram estimates for each of the reported quantiles:
    /// the 99th, 95th, 90th and 50th percentile, in this order. All are
    /// read from the histograms as they are now, so that for every
    /// histogram the four estimates are in the order of their quantiles.
    pub fn report(&self) -> (reports: Vec<QuantileReport>)
        ensures
            is_report_of(reports@, self.stages()),
    {
        let mut reports: Vec<QuantileReport> = Vec::new();
        let p99 = Quantile { percent: 99 };
        reports.push(QuantileReport { quantile: p99, estimates: self.quantiles(p99) });
        let p95 = Quantile { percent: 95 };
        reports.push(QuantileReport { quantile: p95, estimates: self.quantiles(p95) });
        let p90 = Quantile { percent: 90 };
        reports.push(QuantileReport { quantile: p90, estimates: self.quantiles(p90) });
        let p50 = Quantile { percent: 50 };
        reports.push(QuantileReport { quantile: p50, estimates: self.quantiles(p50) });
        proof {
            let stages = self.stages();
            assert forall|j: int, k: int, i: int|
                #![trigger reports@[k].estimates.values()[i], reports@[j].estimates.values()[i]]
                0 <= j <= k < reports@.len() && 0 <= i
                    < stages.len() implies reports@[k].estimates.values()[i]
                <= reports@[j].estimates.values()[i] by {
                let lower = reports@[k].quantile;
                let higher = reports@[j].quantile;
                assert(lower.percent <= higher.percent);
                assert(are_quantiles_of(reports@[j].estimates.values(), stages, higher));
                assert(are_quantiles_of(reports@[k].estimates.values(), stages, lower));
                assert(percentile_value(
                    significant_figures(stages[i]),
                    recorded_values(stages[i]),
                    lower.percent,
                ) <= reports@[j].estimates.values()[i]);
                assert(reports@[k].estimates.values()[i] == percentile_value(
                    significant_figures(stages[i]),
                    recorded_values(stages[i]),
                    lower.percent,
                ));
            }
        }
        reports
    }
}

impl Benchmark {
    /// One step of the latency collector, taken for each block's timings
    /// that reach it.
    ///
    /// If the benchmark is cancelled the collector stops and records
    /// nothing. Otherwise every duration is recorded into the histogram of
    /// its step, and when at least five seconds have passed since the last
    /// report, a report is due.
    pub fn block_time_quantiles_step(
        histograms: &mut BlockTimingsHistograms,
        block_timings: BlockTimings,
        cancelled: bool,
        seconds_since_report: u64,
    ) -> (result: Result<CollectorStep, BenchmarkError>)
        ensures
            result is Ok,
            cancelled ==> result == Ok::<CollectorStep, BenchmarkError>(CollectorStep::Stop)
                && final(histograms).stages() == old(histograms).stages(),
            !cancelled ==> is_recording(
                old(histograms).stages(),
                final(histograms).stages(),
                block_timings.values(),
            ) && match result {
                Ok(CollectorStep::Continue) => seconds_since_report < QUANTILE_REPORT_INTERVAL_SECS,
                Ok(CollectorStep::Report(reports)) => seconds_since_report
                    >= QUANTILE_REPORT_INTERVAL_SECS && is_report_of(
                    reports@,
                    final(histograms).stages(),
                ),
                _ => false,
            },
    {
        if cancelled {
            return Ok(CollectorStep::Stop);
        }
        match histograms.record(block_timings) {
            Ok(_) => {},
            Err(error) => {
                return Err(error);
            },
        }
        if seconds_since_report >= QUANTILE_REPORT_INTERVAL_SECS {
            Ok(CollectorStep::Report(histograms.report()))
        } else {
            Ok(CollectorStep::Continue)
        }
    }
}

} // verus!
