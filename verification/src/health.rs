//! The health check of the benchmark: the 99th percentile of each
//! validator's proxy latency over the last interval, held against a
//! threshold.

use vstd::prelude::*;
use vstd::string::*;

use crate::benchmark::Benchmark;
use crate::error::BenchmarkError;
use crate::histogram::{
    boundaries_match, boundary_at, bucket_growth, first_boundary_mismatch, lemma_first_mismatch,
    HistogramSnapshot,
};
use crate::quantile::{quantile_spec, Quantile, QuantileValue};
use crate::scrape::{is_histogram_of, is_parse_failure, Sample};

verus! {

/// A validator whose interval p99 lies above this many microseconds
/// (400 ms) is unhealthy.
pub const PROXY_LATENCY_P99_THRESHOLD: u64 = 400_000;

/// The name of the latency histogram in a validator's metrics.
pub const LATENCY_METRIC_PREFIX: &'static str = "linera_proxy_request_latency";

/// The histogram that each validator, by metrics address, reported last.
pub struct SnapshotStore {
    entries: Vec<StoreEntry>,
}

struct StoreEntry {
    address: String,
    snapshot: HistogramSnapshot,
}

/// The map that a list of entries stands for.
spec fn entries_map(entries: Seq<StoreEntry>) -> Map<Seq<char>, HistogramSnapshot>
    decreases entries.len(),
{
    if entries.len() == 0 {
        Map::empty()
    } else {
        entries_map(entries.drop_last()).insert(entries.last().address@, entries.last().snapshot)
    }
}

/// No address occurs twice among the entries.
spec fn distinct_addresses(entries: Seq<StoreEntry>) -> bool {
    forall|i: int, j: int|
        0 <= i < j < entries.len() ==> (#[trigger] entries[i]).address@ != (
        #[trigger] entries[j]).address@
}

/// With distinct addresses, the map holds exactly the entries.
proof fn lemma_entries_map(entries: Seq<StoreEntry>)
    requires
        distinct_addresses(entries),
    ensures
        forall|i: int|
            0 <= i < entries.len() ==> entries_map(entries).contains_key(
                (#[trigger] entries[i]).address@,
            ) && entries_map(entries)[entries[i].address@] == entries[i].snapshot,
        forall|address: Seq<char>| #[trigger]
            entries_map(entries).contains_key(address) ==> exists|i: int|
                0 <= i < entries.len() && (#[trigger] entries[i]).address@ == address,
    decreases entries.len(),
{
    if entries.len() > 0 {
        let rest = entries.drop_last();
        assert forall|i: int, j: int| 0 <= i < j < rest.len() implies (#[trigger] rest[i]).address@
            != (#[trigger] rest[j]).address@ by {
            assert(rest[i] == entries[i] && rest[j] == entries[j]);
        }
        lemma_entries_map(rest);
        assert forall|i: int| 0 <= i < entries.len() implies entries_map(entries).contains_key(
            (#[trigger] entries[i]).address@,
        ) && entries_map(entries)[entries[i].address@] == entries[i].snapshot by {
            if i < entries.len() - 1 {
                assert(rest[i] == entries[i]);
                assert(entries[i].address@ != entries[entries.len() - 1].address@);
            }
        }
        assert forall|address: Seq<char>| #[trigger]
            entries_map(entries).contains_key(address) implies exists|i: int|
            0 <= i < entries.len() && (#[trigger] entries[i]).address@ == address by {
            if address == entries.last().address@ {
                assert(entries[entries.len() - 1].address@ == address);
            } else {
                assert(entries_map(rest).contains_key(address));
                let i = choose|i: int| 0 <= i < rest.len() && (#[trigger] rest[i]).address@ == address;
                assert(entries[i].address@ == address);
            }
        }
    }
}

/// Replacing the snapshot of one entry is an insertion under its address.
proof fn lemma_entries_map_update(entries: Seq<StoreEntry>, at: int, entry: StoreEntry)
    requires
        distinct_addresses(entries),
        0 <= at < entries.len(),
        entries[at].address@ == entry.address@,
    ensures
        distinct_addresses(entries.update(at, entry)),
        entries_map(entries.update(at, entry)) == entries_map(entries).insert(
            entry.address@,
            entry.snapshot,
        ),
    decreases entries.len(),
{
    let updated = entries.update(at, entry);
    assert forall|i: int, j: int| 0 <= i < j < updated.len() implies (#[trigger] updated[i]).address@
        != (#[trigger] updated[j]).address@ by {
        assert(entries[i].address@ != entries[j].address@);
    }
    let rest = entries.drop_last();
    assert forall|i: int, j: int| 0 <= i < j < rest.len() implies (#[trigger] rest[i]).address@ != (
    #[trigger] rest[j]).address@ by {
        assert(rest[i] == entries[i] && rest[j] == entries[j]);
    }
    if at == entries.len() - 1 {
        assert(updated.drop_last() =~= rest);
        assert(entries_map(updated) =~= entries_map(entries).insert(
            entry.address@,
            entry.snapshot,
        ));
    } else {
        assert(updated.drop_last() =~= rest.update(at, entry));
        assert(updated.last() == entries.last());
        assert(rest[at] == entries[at]);
        lemma_entries_map_update(rest, at, entry);
        assert(entries[at].address@ != entries[entries.len() - 1].address@);
        assert(entries_map(updated) =~= entries_map(entries).insert(
            entry.address@,
            entry.snapshot,
        ));
    }
}

impl SnapshotStore {
    /// No address is held twice. Every store that this module hands out is
    /// well formed and stays so.
    pub closed spec fn well_formed(&self) -> bool {
        distinct_addresses(self.entries@)
    }

    /// The snapshots held, by metrics address.
    pub closed spec fn view(&self) -> Map<Seq<char>, HistogramSnapshot> {
        entries_map(self.entries@)
    }

    /// A store that holds nothing.
    pub fn new() -> (store: SnapshotStore)
        ensures
            store.well_formed(),
            store@ == Map::<Seq<char>, HistogramSnapshot>::empty(),
    {
        SnapshotStore { entries: Vec::new() }
    }

    /// Where the entry of `address` stands, if there is one.
    fn position(&self, address: &String) -> (at: Option<usize>)
        ensures
            match at {
                Some(i) => i < self.entries@.len() && self.entries@[i as int].address@
                    == address@,
                None => forall|i: int|
                    0 <= i < self.entries@.len() ==> (#[trigger] self.entries@[i]).address@
                        != address@,
            },
    {
        let mut i: usize = 0;
        while i < self.entries.len()
            invariant
                i <= self.entries@.len(),
                forall|j: int|
                    0 <= j < i ==> (#[trigger] self.entries@[j]).address@ != address@,
            decreases self.entries@.len() - i,
        {
            if self.entries[i].address == *address {
                return Some(i);
            }
            i += 1;
        }
        None
    }

    /// The snapshot held for `address`, if any.
    pub fn get(&self, address: &str) -> (found: Option<&HistogramSnapshot>)
        requires
            self.well_formed(),
        ensures
            match found {
                Some(snapshot) => self@.contains_key(address@) && *snapshot == self@[address@],
                None => !self@.contains_key(address@),
            },
    {
        proof {
            lemma_entries_map(self.entries@);
        }
        let key = String::from_str(address);
        match self.position(&key) {
            Some(i) => Some(&self.entries[i].snapshot),
            None => None,
        }
    }

    /// Holds `snapshot` for `address` from now on, in place of any earlier
    /// one.
    pub fn insert(&mut self, address: String, snapshot: HistogramSnapshot)
        requires
            old(self).well_formed(),
        ensures
            final(self).well_formed(),
            final(self)@ == old(self)@.insert(address@, snapshot),
    {
        proof {
            lemma_entries_map(self.entries@);
        }
        let found = self.position(&address);
        let entry = StoreEntry { address, snapshot };
        match found {
            Some(i) => {
                proof {
                    lemma_entries_map_update(self.entries@, i as int, entry);
                }
                self.entries.set(i, entry);
            },
            None => {
                proof {
                    assert(self.entries@.push(entry).drop_last() =~= self.entries@);
                    assert forall|i: int, j: int|
                        0 <= i < j < self.entries@.push(entry).len() implies (
                    #[trigger] self.entries@.push(entry)[i]).address@ != (
                    #[trigger] self.entries@.push(entry)[j]).address@ by {
                        if j < self.entries@.len() {
                            assert(self.entries@[i].address@ != self.entries@[j].address@);
                        } else {
                            assert(self.entries@[i].address@ != entry.address@);
                        }
                    }
                }
                self.entries.push(entry);
            },
        }
    }
}

/// What one interval says of one validator.
#[derive(Clone, Copy, Debug, PartialEq, Eq, Structural)]
pub enum ValidatorHealth {
    /// Nothing was observed in the interval.
    NoData,
    /// The interval p99 is within the threshold.
    Healthy(QuantileValue),
    /// The interval p99 lies above the threshold.
    Unhealthy(QuantileValue),
}

/// The samples that one validator's metrics endpoint returned.
#[derive(Clone, Debug, PartialEq, Eq)]
pub struct ValidatorScrape {
    pub address: String,
    pub samples: Vec<Sample>,
}

/// The quantile of what was observed between `previous` and `current`:
/// that of their difference, or why they have none.
pub open spec fn interval_quantile_spec(
    previous: HistogramSnapshot,
    current: HistogramSnapshot,
    quantile: Quantile,
) -> Result<QuantileValue, BenchmarkError> {
    if current.count < previous.count {
        Err(BenchmarkError::HistogramCountMismatch)
    } else if current.sum < previous.sum {
        Err(BenchmarkError::HistogramSumMismatch)
    } else if !boundaries_match(previous.buckets@, current.buckets@) {
        let at = choose|at: int| first_boundary_mismatch(previous.buckets@, current.buckets@, at);
        Err(
            BenchmarkError::BucketBoundariesDoNotMatch(
                boundary_at(previous.buckets@, at),
                boundary_at(current.buckets@, at),
            ),
        )
    } else {
        quantile_spec(
            bucket_growth(previous.buckets@, current.buckets@),
            (current.count - previous.count) as u64,
            quantile,
        )
    }
}

/// Estimates a quantile of what was observed between two snapshots of one
/// histogram: the quantile of their difference.
pub fn interval_quantile(
    previous: &HistogramSnapshot,
    current: &HistogramSnapshot,
    quantile: Quantile,
) -> (result: Result<QuantileValue, BenchmarkError>)
    ensures
        result == interval_quantile_spec(*previous, *current, quantile),
{
    match Benchmark::diff_histograms(previous, current) {
        Ok(diff) => Benchmark::compute_quantile(diff.buckets.as_slice(), diff.count, quantile),
        Err(error) => {
            proof {
                if current.count >= previous.count && current.sum >= previous.sum {
                    let found = choose|at: int|
                        #[trigger] first_boundary_mismatch(
                            previous.buckets@,
                            current.buckets@,
                            at,
                        ) && error == BenchmarkError::BucketBoundariesDoNotMatch(
                            boundary_at(previous.buckets@, at),
                            boundary_at(current.buckets@, at),
                        );
                    lemma_first_mismatch(previous.buckets@, current.buckets@, found, found);
                    let chosen = choose|at: int|
                        first_boundary_mismatch(previous.buckets@, current.buckets@, at);
                    lemma_first_mismatch(previous.buckets@, current.buckets@, found, chosen);
                }
            }
            Err(error)
        },
    }
}

/// How a freshly read `histogram` of the validator at `address` is judged
/// against the stored snapshots `before`, and what is stored afterwards.
///
/// Without an earlier snapshot the check fails. An interval without
/// observations says nothing and changes nothing. Any other failure to
/// estimate the p99 is the result. A p99 above the threshold marks the
/// validator unhealthy and keeps the earlier snapshot; otherwise the new
/// histogram takes its place.
pub open spec fn is_judgement(
    before: Map<Seq<char>, HistogramSnapshot>,
    address: Seq<char>,
    histogram: HistogramSnapshot,
    result: Result<ValidatorHealth, BenchmarkError>,
    after: Map<Seq<char>, HistogramSnapshot>,
) -> bool {
    if !before.contains_key(address) {
        &&& result matches Err(BenchmarkError::PreviousHistogramSnapshotDoesNotExist(name))
            && name@ == address
        &&& after == before
    } else {
        match interval_quantile_spec(before[address], histogram, Quantile { percent: 99 }) {
            Err(BenchmarkError::NoDataYetForP99Calculation) => {
                &&& result == Ok::<ValidatorHealth, BenchmarkError>(ValidatorHealth::NoData)
                &&& after == before
            },
            Err(error) => {
                &&& result == Err::<ValidatorHealth, BenchmarkError>(error)
                &&& after == before
            },
            Ok(p99) => if p99.exceeds_spec(PROXY_LATENCY_P99_THRESHOLD) {
                &&& result == Ok::<ValidatorHealth, BenchmarkError>(
                    ValidatorHealth::Unhealthy(p99),
                )
                &&& after == before
            } else {
                &&& result == Ok::<ValidatorHealth, BenchmarkError>(ValidatorHealth::Healthy(p99))
                &&& after == before.insert(address, histogram)
            },
        }
    }
}

/// What checking one validator comes to: the failure to read its latency
/// histogram out of `samples`, or the judgement of that histogram.
pub open spec fn is_check(
    before: Map<Seq<char>, HistogramSnapshot>,
    address: Seq<char>,
    samples: Seq<Sample>,
    result: Result<ValidatorHealth, BenchmarkError>,
    after: Map<Seq<char>, HistogramSnapshot>,
) -> bool {
    ||| {
        &&& result matches Err(error) && is_parse_failure(
            samples,
            LATENCY_METRIC_PREFIX@,
            error,
        )
        &&& after == before
    }
    ||| exists|histogram: HistogramSnapshot|
        #![trigger is_histogram_of(samples, LATENCY_METRIC_PREFIX@, histogram)]
        is_histogram_of(samples, LATENCY_METRIC_PREFIX@, histogram) && is_judgement(
            before,
            address,
            histogram,
            result,
            after,
        )
}

/// Checks one validator: reads its latency histogram out of `samples`,
/// estimates the p99 of the interval since the snapshot stored for
/// `address`, and stores the new histogram if the validator is healthy.
pub fn check_validator(previous: &mut SnapshotStore, address: &str, samples: &Vec<Sample>) -> (result:
    Result<ValidatorHealth, BenchmarkError>)
    requires
        old(previous).well_formed(),
    ensures
        final(previous).well_formed(),
        is_check(old(previous)@, address@, samples@, result, final(previous)@),
{
    let histogram = match Benchmark::parse_histogram(samples, LATENCY_METRIC_PREFIX) {
        Ok(histogram) => histogram,
        Err(error) => {
            return Err(error);
        },
    };
    let estimate = match previous.get(address) {
        Some(before) => interval_quantile(before, &histogram, Quantile { percent: 99 }),
        None => {
            let error = BenchmarkError::PreviousHistogramSnapshotDoesNotExist(
                String::from_str(address),
            );
            assert(is_judgement(previous@, address@, histogram, Err(error), previous@));
            return Err(error);
        },
    };
    let result = match estimate {
        Ok(p99) => {
            if p99.exceeds(PROXY_LATENCY_P99_THRESHOLD) {
                Ok(ValidatorHealth::Unhealthy(p99))
            } else {
                let ghost before = previous@;
                previous.insert(String::from_str(address), histogram);
                assert(is_judgement(
                    before,
                    address@,
                    histogram,
                    Ok(ValidatorHealth::Healthy(p99)),
                    previous@,
                ));
                return Ok(ValidatorHealth::Healthy(p99));
            }
        },
        Err(BenchmarkError::NoDataYetForP99Calculation) => Ok(ValidatorHealth::NoData),
        Err(error) => Err(error),
    };
    assert(is_judgement(previous@, address@, histogram, result, previous@));
    result
}

/// What checking the validators from position `from` on comes to, one
/// after the other: the judgement of each validator that was checked
/// without failure, at the validator's position in `judgements`, and the
/// first failure, or unhealthy at the first validator above the
/// threshold, or healthy when none is left.
pub open spec fn is_health_round(
    scrapes: Seq<ValidatorScrape>,
    before: Map<Seq<char>, HistogramSnapshot>,
    from: int,
    judgements: Seq<ValidatorHealth>,
    result: Result<bool, BenchmarkError>,
    after: Map<Seq<char>, HistogramSnapshot>,
) -> bool
    decreases scrapes.len() - from,
{
    if from < 0 || from >= scrapes.len() {
        &&& judgements.len() == scrapes.len()
        &&& result == Ok::<bool, BenchmarkError>(true)
        &&& after == before
    } else {
        exists|step: Result<ValidatorHealth, BenchmarkError>, mid: Map<Seq<char>, HistogramSnapshot>|
            #![trigger is_check(before, scrapes[from].address@, scrapes[from].samples@, step, mid)]
            is_check(before, scrapes[from].address@, scrapes[from].samples@, step, mid) && match step {
                Err(error) => judgements.len() == from && result == Err::<bool, BenchmarkError>(
                    error,
                ) && after == mid,
                Ok(health) => judgements.len() > from && judgements[from] == health
                    && if health is Unhealthy {
                    judgements.len() == from + 1 && result == Ok::<bool, BenchmarkError>(false)
                        && after == mid
                } else {
                    is_health_round(scrapes, mid, from + 1, judgements, result, after)
                },
            }
    }
}

/// What checking the validators comes to, whatever the judgements of the
/// single validators are.
pub open spec fn is_health_check(
    scrapes: Seq<ValidatorScrape>,
    before: Map<Seq<char>, HistogramSnapshot>,
    result: Result<bool, BenchmarkError>,
    after: Map<Seq<char>, HistogramSnapshot>,
) -> bool {
    exists|judgements: Seq<ValidatorHealth>|
        is_health_round(scrapes, before, 0, judgements, result, after)
}

/// `full` begins with the judgements `judged`.
pub open spec fn begins_with(full: Seq<ValidatorHealth>, judged: Seq<ValidatorHealth>) -> bool {
    &&& full.len() >= judged.len()
    &&& forall|k: int| 0 <= k < judged.len() ==> full[k] == judged[k]
}

/// A round of health checks: what was found of each validator, and what
/// it comes to.
#[derive(Debug, PartialEq, Eq)]
pub struct HealthRound {
    /// The judgement of each validator that was checked without failure,
    /// in the order of the validators: all of them, or those up to the
    /// first unhealthy one, or those before the first failure.
    pub judgements: Vec<ValidatorHealth>,
    /// Whether all validators are healthy, or the first failure.
    pub healthy: Result<bool, BenchmarkError>,
}

impl Benchmark {
    /// Checks the validators in turn against the snapshots of the last
    /// round, and hands out the judgement of each.
    ///
    /// Stops at the first validator whose check fails, with that failure,
    /// and at the first unhealthy one. The snapshots of the healthy
    /// validators checked until then are replaced by what they reported
    /// now.
    pub fn judge_validators(scrapes: &Vec<ValidatorScrape>, previous: &mut SnapshotStore) -> (round:
        HealthRound)
        requires
            old(previous).well_formed(),
        ensures
            final(previous).well_formed(),
            is_health_round(
                scrapes@,
                old(previous)@,
                0,
                round.judgements@,
                round.healthy,
                final(previous)@,
            ),
    {
        let mut judgements: Vec<ValidatorHealth> = Vec::new();
        let mut i: usize = 0;
        while i < scrapes.len()
            invariant
                i <= scrapes@.len(),
                previous.well_formed(),
                judgements@.len() == i,
                forall|
                    full: Seq<ValidatorHealth>,
                    result: Result<bool, BenchmarkError>,
                    after: Map<Seq<char>, HistogramSnapshot>,
                |
                    #![trigger is_health_round(scrapes@, previous@, i as int, full, result, after)]
                    begins_with(full, judgements@) && is_health_round(
                        scrapes@,
                        previous@,
                        i as int,
                        full,
                        result,
                        after,
                    ) ==> is_health_round(scrapes@, old(previous)@, 0, full, result, after),
            decreases scrapes@.len() - i,
        {
            let ghost before = previous@;
            let ghost judged = judgements@;
            let step = check_validator(previous, scrapes[i].address.as_str(), &scrapes[i].samples);
            match step {
                Err(error) => {
                    proof {
                        assert(begins_with(judged, judged));
                        assert(is_health_round(
                            scrapes@,
                            before,
                            i as int,
                            judged,
                            Err(error),
                            previous@,
                        ));
                    }
                    return HealthRound { judgements, healthy: Err(error) };
                },
                Ok(health) => {
                    judgements.push(health);
                    let unhealthy = match health {
                        ValidatorHealth::Unhealthy(_) => true,
                        _ => false,
                    };
                    if unhealthy {
                        proof {
                            assert(begins_with(judgements@, judged));
                            assert(is_health_round(
                                scrapes@,
                                before,
                                i as int,
                                judgements@,
                                Ok(false),
                                previous@,
                            ));
                        }
                        return HealthRound { judgements, healthy: Ok(false) };
                    }
                    assert forall|
                        full: Seq<ValidatorHealth>,
                        result: Result<bool, BenchmarkError>,
                        after: Map<Seq<char>, HistogramSnapshot>,
                    |
                        #![trigger is_health_round(scrapes@, previous@, i + 1, full, result, after)]
                        begins_with(full, judgements@) && is_health_round(
                            scrapes@,
                            previous@,
                            i + 1,
                            full,
                            result,
                            after,
                        ) implies is_health_round(scrapes@, old(previous)@, 0, full, result, after) by {
                        assert(full[i as int] == judgements@[i as int]);
                        assert(begins_with(full, judged)) by {
                            assert forall|k: int| 0 <= k < judged.len() implies full[k]
                                == judged[k] by {
                                assert(full[k] == judgements@[k]);
                            }
                        }
                        assert(is_check(
                            before,
                            scrapes@[i as int].address@,
                            scrapes@[i as int].samples@,
                            step,
                            previous@,
                        ));
                        assert(is_health_round(scrapes@, before, i as int, full, result, after));
                    }
                },
            }
            i += 1;
        }
        proof {
            assert(begins_with(judgements@, judgements@));
            assert(is_health_round(
                scrapes@,
                previous@,
                i as int,
                judgements@,
                Ok(true),
                previous@,
            ));
        }
        HealthRound { judgements, healthy: Ok(true) }
    }

    /// Checks the validators in turn against the snapshots of the last round.
    ///
    /// Returns whether all are healthy. Stops at the first validator whose
    /// check fails, with that failure, and at the first unhealthy one. The
    /// snapshots of the healthy validators checked until then are replaced by
    /// what they reported now.
    pub fn validators_healthy(scrapes: &Vec<ValidatorScrape>, previous: &mut SnapshotStore) -> (result:
        Result<bool, BenchmarkError>)
        requires
            old(previous).well_formed(),
        ensures
            final(previous).well_formed(),
            is_health_check(scrapes@, old(previous)@, result, final(previous)@),
    {
        let round = Benchmark::judge_validators(scrapes, previous);
        round.healthy
    }
}

/// What reading the first snapshots of the validators from position
/// `from` on comes to, given those read so far: a store with the latency
/// histogram of every validator, or the failure of the first validator
/// whose histogram cannot be read.
pub open spec fn is_first_reading(
    scrapes: Seq<ValidatorScrape>,
    before: Map<Seq<char>, HistogramSnapshot>,
    from: int,
    result: Result<SnapshotStore, BenchmarkError>,
) -> bool
    decreases scrapes.len() - from,
{
    if from < 0 || from >= scrapes.len() {
        result matches Ok(store) && store.well_formed() && store@ == before
    } else {
        ||| result matches Err(error) && is_parse_failure(
            scrapes[from].samples@,
            LATENCY_METRIC_PREFIX@,
            error,
        )
        ||| exists|histogram: HistogramSnapshot|
            #![trigger is_histogram_of(scrapes[from].samples@, LATENCY_METRIC_PREFIX@, histogram)]
            is_histogram_of(scrapes[from].samples@, LATENCY_METRIC_PREFIX@, histogram)
                && is_first_reading(
                scrapes,
                before.insert(scrapes[from].address@, histogram),
                from + 1,
                result,
            )
    }
}

/// What the metrics watcher does after a round of checks.
#[derive(Debug, PartialEq, Eq)]
pub enum WatcherStep {
    /// Every validator is healthy: the watcher goes on.
    Continue,
    /// A validator is unhealthy: the benchmark is cancelled.
    ShutDownUnhealthy,
    /// A check failed: the benchmark is cancelled, and the failure is that
    /// of the watcher.
    ShutDownOnError(BenchmarkError),
}

impl WatcherStep {
    /// The outcome of the round of checks that this step follows.
    pub open spec fn outcome(self) -> Result<bool, BenchmarkError> {
        match self {
            WatcherStep::Continue => Ok(true),
            WatcherStep::ShutDownUnhealthy => Ok(false),
            WatcherStep::ShutDownOnError(error) => Err(error),
        }
    }
}

/// A round of the metrics watcher: what was found of each validator, and
/// what the watcher does.
#[derive(Debug, PartialEq, Eq)]
pub struct WatcherRound {
    /// The judgement of each validator that was checked without failure,
    /// in the order of the validators.
    pub judgements: Vec<ValidatorHealth>,
    /// What the watcher does next.
    pub step: WatcherStep,
}

impl Benchmark {
    /// Reads the latency histogram of every validator before the benchmark
    /// starts, as the snapshots that the first round of checks is held
    /// against.
    pub fn first_snapshots(scrapes: &Vec<ValidatorScrape>) -> (result: Result<
        SnapshotStore,
        BenchmarkError,
    >)
        ensures
            is_first_reading(scrapes@, Map::empty(), 0, result),
            result matches Ok(store) ==> store.well_formed(),
    {
        let mut store = SnapshotStore::new();
        let mut i: usize = 0;
        while i < scrapes.len()
            invariant
                i <= scrapes@.len(),
                store.well_formed(),
                forall|result: Result<SnapshotStore, BenchmarkError>|
                    #![trigger is_first_reading(scrapes@, store@, i as int, result)]
                    is_first_reading(scrapes@, store@, i as int, result) ==> is_first_reading(
                        scrapes@,
                        Map::empty(),
                        0,
                        result,
                    ),
            decreases scrapes@.len() - i,
        {
            let ghost before = store@;
            match Benchmark::parse_histogram(&scrapes[i].samples, LATENCY_METRIC_PREFIX) {
                Ok(histogram) => {
                    store.insert(scrapes[i].address.clone(), histogram);
                    assert forall|result: Result<SnapshotStore, BenchmarkError>|
                        #![trigger is_first_reading(scrapes@, store@, i + 1, result)]
                        is_first_reading(
                            scrapes@,
                            store@,
                            i + 1,
                            result,
                        ) implies is_first_reading(scrapes@, Map::empty(), 0, result) by {
                        assert(is_histogram_of(
                            scrapes@[i as int].samples@,
                            LATENCY_METRIC_PREFIX@,
                            histogram,
                        ));
                        assert(is_first_reading(scrapes@, before, i as int, result));
                    }
                },
                Err(error) => {
                    assert(is_first_reading(scrapes@, before, i as int, Err(error)));
                    return Err(error);
                },
            }
            i += 1;
        }
        assert(is_first_reading(scrapes@, store@, i as int, Ok(store)));
        Ok(store)
    }

    /// One round of the metrics watcher: checks the validators, hands out
    /// the judgement of each, and says whether the benchmark goes on. It is
    /// shut down when a check fails and when a validator is unhealthy.
    pub fn metrics_watcher_step(scrapes: &Vec<ValidatorScrape>, previous: &mut SnapshotStore) -> (round:
        WatcherRound)
        requires
            old(previous).well_formed(),
        ensures
            final(previous).well_formed(),
            is_health_round(
                scrapes@,
                old(previous)@,
                0,
                round.judgements@,
                round.step.outcome(),
                final(previous)@,
            ),
    {
        let checked = Benchmark::judge_validators(scrapes, previous);
        let step = match checked.healthy {
            Ok(true) => WatcherStep::Continue,
            Ok(false) => WatcherStep::ShutDownUnhealthy,
            Err(error) => WatcherStep::ShutDownOnError(error),
        };
        WatcherRound { judgements: checked.judgements, step }
    }
}

} // verus!
