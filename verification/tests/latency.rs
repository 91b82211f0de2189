use linera_toolkit::benchmark::Benchmark;
use linera_toolkit::error::BenchmarkError;
use linera_toolkit::health::{
    check_validator, interval_quantile, HealthRound, SnapshotStore, ValidatorHealth,
    ValidatorScrape, LATENCY_METRIC_PREFIX, PROXY_LATENCY_P99_THRESHOLD,
};
use linera_toolkit::histogram::{
    sort_by_bound, Bound, HistogramCount, HistogramSnapshot,
};
use linera_toolkit::quantile::{Quantile, QuantileValue};
use linera_toolkit::scrape::{Sample, SampleValue, SummaryCount};

fn bucket(less_than: u64, count: u64) -> HistogramCount {
    HistogramCount {
        less_than: Bound::Finite(less_than),
        count,
    }
}

fn last_bucket(count: u64) -> HistogramCount {
    HistogramCount {
        less_than: Bound::Infinite,
        count,
    }
}

fn snapshot(buckets: Vec<HistogramCount>, count: u64, sum: u64) -> HistogramSnapshot {
    HistogramSnapshot {
        buckets,
        count,
        sum,
    }
}

fn p(percent: u8) -> Quantile {
    Quantile { percent }
}

fn latency_samples(buckets: Vec<HistogramCount>, count: u64, sum: u64) -> Vec<Sample> {
    vec![
        Sample {
            metric: "linera_proxy_request_latency".to_string(),
            value: SampleValue::Histogram(buckets),
        },
        Sample {
            metric: "linera_proxy_request_latency_sum".to_string(),
            value: SampleValue::Untyped(sum),
        },
        Sample {
            metric: "linera_proxy_request_latency_count".to_string(),
            value: SampleValue::Untyped(count),
        },
    ]
}

#[test]
fn p99_of_interval_falls_in_last_bucket() {
    let previous = snapshot(vec![bucket(10, 100), bucket(100, 150), last_bucket(200)], 200, 0);
    let current = snapshot(vec![bucket(10, 100), bucket(100, 155), last_bucket(260)], 260, 0);
    let diff = Benchmark::diff_histograms(&previous, &current).unwrap();
    assert_eq!(diff.count, 60);
    assert_eq!(
        diff.buckets,
        vec![bucket(10, 0), bucket(100, 5), last_bucket(60)]
    );
    let p99 = Benchmark::compute_quantile(&diff.buckets, diff.count, p(99)).unwrap();
    assert_eq!(p99, QuantileValue::Infinite);
    assert!(p99.exceeds(PROXY_LATENCY_P99_THRESHOLD));
    assert_eq!(
        interval_quantile(&previous, &current, p(99)),
        Ok(QuantileValue::Infinite)
    );
}

#[test]
fn diff_subtracts_bucket_by_bucket() {
    let previous = snapshot(vec![bucket(10, 1), bucket(20, 4), last_bucket(6)], 6, 70);
    let current = snapshot(vec![bucket(10, 3), bucket(20, 9), last_bucket(16)], 16, 200);
    assert_eq!(
        Benchmark::diff_histograms(&previous, &current),
        Ok(HistogramSnapshot {
            buckets: vec![bucket(10, 2), bucket(20, 5), last_bucket(10)],
            count: 10,
            sum: 130,
        })
    );
}

#[test]
fn diff_reads_a_shrinking_bucket_as_empty() {
    let previous = snapshot(vec![bucket(10, 5), last_bucket(6)], 6, 0);
    let current = snapshot(vec![bucket(10, 3), last_bucket(9)], 9, 0);
    let diff = Benchmark::diff_histograms(&previous, &current).unwrap();
    assert_eq!(diff.buckets, vec![bucket(10, 0), last_bucket(3)]);
    assert_eq!(diff.count, 3);
}

#[test]
fn diff_rejects_a_sum_regression() {
    let previous = snapshot(vec![last_bucket(1)], 1, 5);
    let current = snapshot(vec![last_bucket(1)], 1, 3);
    assert_eq!(
        Benchmark::diff_histograms(&previous, &current),
        Err(BenchmarkError::HistogramSumMismatch)
    );
    // The sum may stay as it is.
    let diff = Benchmark::diff_histograms(&previous, &previous).unwrap();
    assert_eq!(diff.sum, 0);
    assert_eq!(diff.count, 0);
    // The count is looked at before the sum, the sum before the buckets.
    let fewer = snapshot(vec![last_bucket(0)], 0, 3);
    assert_eq!(
        Benchmark::diff_histograms(&previous, &fewer),
        Err(BenchmarkError::HistogramCountMismatch)
    );
    let other_buckets = snapshot(vec![bucket(10, 1)], 1, 3);
    assert_eq!(
        Benchmark::diff_histograms(&previous, &other_buckets),
        Err(BenchmarkError::HistogramSumMismatch)
    );
}

#[test]
fn diff_rejects_a_count_regression() {
    let previous = snapshot(vec![last_bucket(7)], 7, 0);
    let current = snapshot(vec![last_bucket(6)], 6, 0);
    assert_eq!(
        Benchmark::diff_histograms(&previous, &current),
        Err(BenchmarkError::HistogramCountMismatch)
    );
}

#[test]
fn diff_rejects_the_first_differing_boundary() {
    let previous = snapshot(vec![bucket(10, 1), bucket(20, 2), bucket(30, 3)], 3, 0);
    let current = snapshot(vec![bucket(10, 1), bucket(25, 2), bucket(35, 3)], 3, 0);
    assert_eq!(
        Benchmark::diff_histograms(&previous, &current),
        Err(BenchmarkError::BucketBoundariesDoNotMatch(
            Some(Bound::Finite(20)),
            Some(Bound::Finite(25))
        ))
    );
    let unbounded = snapshot(vec![bucket(10, 1), last_bucket(2)], 3, 0);
    assert_eq!(
        Benchmark::diff_histograms(&previous, &unbounded),
        Err(BenchmarkError::BucketBoundariesDoNotMatch(
            Some(Bound::Finite(20)),
            Some(Bound::Infinite)
        ))
    );
}

#[test]
fn diff_prefers_the_count_regression_to_a_boundary_mismatch() {
    let previous = snapshot(vec![bucket(10, 1)], 5, 0);
    let current = snapshot(vec![bucket(11, 1)], 4, 0);
    assert_eq!(
        Benchmark::diff_histograms(&previous, &current),
        Err(BenchmarkError::HistogramCountMismatch)
    );
}

#[test]
fn diff_rejects_bucket_lists_of_different_length() {
    let shorter = snapshot(vec![bucket(10, 1)], 1, 0);
    let longer = snapshot(vec![bucket(10, 4), bucket(20, 5)], 5, 0);
    assert_eq!(
        Benchmark::diff_histograms(&shorter, &longer),
        Err(BenchmarkError::BucketBoundariesDoNotMatch(
            None,
            Some(Bound::Finite(20))
        ))
    );
    let more = snapshot(vec![bucket(10, 4), bucket(20, 5)], 0, 0);
    let less = snapshot(vec![bucket(10, 4)], 5, 0);
    assert_eq!(
        Benchmark::diff_histograms(&more, &less),
        Err(BenchmarkError::BucketBoundariesDoNotMatch(
            Some(Bound::Finite(20)),
            None
        ))
    );
    // A boundary that differs before the shorter list ends comes first.
    let other = snapshot(vec![bucket(11, 4), bucket(20, 5), last_bucket(5)], 5, 0);
    assert_eq!(
        Benchmark::diff_histograms(&shorter, &other),
        Err(BenchmarkError::BucketBoundariesDoNotMatch(
            Some(Bound::Finite(10)),
            Some(Bound::Finite(11))
        ))
    );
    let empty = snapshot(vec![], 0, 0);
    assert_eq!(
        Benchmark::diff_histograms(&empty, &shorter),
        Err(BenchmarkError::BucketBoundariesDoNotMatch(
            None,
            Some(Bound::Finite(10))
        ))
    );
    assert_eq!(
        Benchmark::diff_histograms(&empty, &empty),
        Ok(snapshot(vec![], 0, 0))
    );
    let diff = Benchmark::diff_histograms(&longer, &longer).unwrap();
    assert_eq!(diff.buckets, vec![bucket(10, 0), bucket(20, 0)]);
    assert_eq!(diff.count, 0);
    assert_eq!(diff.sum, 0);
}

#[test]
fn quantile_interpolates_inside_the_bucket() {
    let buckets = vec![bucket(10, 50), bucket(100, 100), last_bucket(100)];
    // Rank 99 lies 49 of 50 observations into the bucket from 10 to 100.
    assert_eq!(
        Benchmark::compute_quantile(&buckets, 100, p(99)),
        Ok(QuantileValue::Finite {
            numerator: 10 * 1 + 100 * 49,
            denominator: 50
        })
    );
    // Rank 50 is the whole of the first bucket, from 0 to 10.
    assert_eq!(
        Benchmark::compute_quantile(&buckets, 100, p(50)),
        Ok(QuantileValue::Finite {
            numerator: 500,
            denominator: 50
        })
    );
    // Rank 25 lies half way into it.
    assert_eq!(
        Benchmark::compute_quantile(&buckets, 100, p(25)),
        Ok(QuantileValue::Finite {
            numerator: 250,
            denominator: 50
        })
    );
}

#[test]
fn quantile_rank_is_rounded_up() {
    let buckets = vec![bucket(10, 59), bucket(20, 60)];
    // 99% of 60 is 59.4, so the rank is 60 and lies in the second bucket.
    assert_eq!(
        Benchmark::compute_quantile(&buckets, 60, p(99)),
        Ok(QuantileValue::Finite {
            numerator: 20,
            denominator: 1
        })
    );
    // 50% of 60 is 30 exactly.
    assert_eq!(
        Benchmark::compute_quantile(&buckets, 60, p(50)),
        Ok(QuantileValue::Finite {
            numerator: 300,
            denominator: 59
        })
    );
}

#[test]
fn quantile_without_observations_has_no_data() {
    let buckets = vec![bucket(10, 0), last_bucket(0)];
    assert_eq!(
        Benchmark::compute_quantile(&buckets, 0, p(99)),
        Err(BenchmarkError::NoDataYetForP99Calculation)
    );
    assert_eq!(
        Benchmark::compute_quantile(&[], 0, p(99)),
        Err(BenchmarkError::NoDataYetForP99Calculation)
    );
}

#[test]
fn quantile_beyond_every_bucket_cannot_be_computed() {
    let buckets = vec![bucket(10, 3), last_bucket(5)];
    assert_eq!(
        Benchmark::compute_quantile(&buckets, 10, p(99)),
        Err(BenchmarkError::CouldNotComputeQuantile)
    );
    assert_eq!(
        Benchmark::compute_quantile(&[], 10, p(99)),
        Err(BenchmarkError::CouldNotComputeQuantile)
    );
}

#[test]
fn quantile_zero_in_an_empty_first_bucket_is_an_error() {
    let buckets = vec![bucket(10, 0), last_bucket(5)];
    assert_eq!(
        Benchmark::compute_quantile(&buckets, 5, p(0)),
        Err(BenchmarkError::UnexpectedEmptyBucket)
    );
    let buckets = vec![bucket(10, 2), last_bucket(5)];
    assert_eq!(
        Benchmark::compute_quantile(&buckets, 5, p(0)),
        Ok(QuantileValue::Finite {
            numerator: 0,
            denominator: 2
        })
    );
}

#[test]
fn quantiles_of_one_snapshot_are_ordered() {
    let buckets = vec![
        bucket(1_000, 10),
        bucket(5_000, 40),
        bucket(10_000, 77),
        bucket(50_000, 93),
        bucket(100_000, 99),
        last_bucket(100),
    ];
    let estimates: Vec<QuantileValue> = [50, 90, 95, 99]
        .iter()
        .map(|percent| Benchmark::compute_quantile(&buckets, 100, p(*percent)).unwrap())
        .collect();
    let as_fraction = |value: &QuantileValue| match value {
        QuantileValue::Finite {
            numerator,
            denominator,
        } => (*numerator, *denominator as u128),
        QuantileValue::Infinite => panic!("finite estimate expected"),
    };
    for pair in estimates.windows(2) {
        let (n1, d1) = as_fraction(&pair[0]);
        let (n2, d2) = as_fraction(&pair[1]);
        assert!(n1 * d2 <= n2 * d1);
    }
    assert_eq!(
        estimates[0],
        QuantileValue::Finite {
            numerator: 5_000 * 27 + 10_000 * 10,
            denominator: 37
        }
    );
    assert_eq!(
        Benchmark::compute_quantile(&buckets, 100, p(100)),
        Ok(QuantileValue::Infinite)
    );
}

#[test]
fn estimate_is_compared_exactly_with_the_threshold() {
    let at_threshold = QuantileValue::Finite {
        numerator: 1_200_000,
        denominator: 3,
    };
    assert!(!at_threshold.exceeds(400_000));
    let just_above = QuantileValue::Finite {
        numerator: 1_200_001,
        denominator: 3,
    };
    assert!(just_above.exceeds(400_000));
    assert!(QuantileValue::Infinite.exceeds(u64::MAX));
    let largest = QuantileValue::Finite {
        numerator: u128::MAX,
        denominator: u64::MAX,
    };
    assert!(largest.exceeds(u64::MAX));
}

#[test]
fn sort_orders_by_boundary_and_is_stable() {
    let buckets = vec![
        last_bucket(9),
        bucket(20, 1),
        bucket(10, 2),
        bucket(20, 3),
        last_bucket(4),
        bucket(10, 5),
    ];
    assert_eq!(
        sort_by_bound(&buckets),
        vec![
            bucket(10, 2),
            bucket(10, 5),
            bucket(20, 1),
            bucket(20, 3),
            last_bucket(9),
            last_bucket(4),
        ]
    );
    assert_eq!(sort_by_bound(&Vec::new()), Vec::new());
}

#[test]
fn parse_gathers_buckets_count_and_sum() {
    let mut samples = latency_samples(vec![last_bucket(7), bucket(100, 5), bucket(10, 2)], 7, 320);
    samples.insert(
        0,
        Sample {
            metric: "linera_proxy_request_latency_total".to_string(),
            value: SampleValue::Counter(12),
        },
    );
    assert_eq!(
        Benchmark::parse_histogram(&samples, LATENCY_METRIC_PREFIX),
        Ok(snapshot(
            vec![bucket(10, 2), bucket(100, 5), last_bucket(7)],
            7,
            320
        ))
    );
}

#[test]
fn parse_joins_histograms_of_one_name_and_keeps_the_last_numbers() {
    let mut samples = latency_samples(vec![bucket(10, 2), last_bucket(3)], 3, 30);
    samples.extend(latency_samples(vec![bucket(10, 4), last_bucket(8)], 8, 80));
    assert_eq!(
        Benchmark::parse_histogram(&samples, "linera_proxy_request_latency"),
        Ok(snapshot(
            vec![bucket(10, 2), bucket(10, 4), last_bucket(3), last_bucket(8)],
            8,
            80
        ))
    );
}

#[test]
fn parse_rejects_values_of_the_wrong_kind() {
    let samples = vec![Sample {
        metric: "latency".to_string(),
        value: SampleValue::Gauge(3),
    }];
    assert_eq!(
        Benchmark::parse_histogram(&samples, "latency"),
        Err(BenchmarkError::ExpectedHistogramValue(SampleValue::Gauge(3)))
    );
    let summary = SampleValue::Summary(vec![SummaryCount {
        quantile: 99,
        count: 4,
    }]);
    let samples = vec![
        Sample {
            metric: "latency_count".to_string(),
            value: SampleValue::Untyped(3),
        },
        Sample {
            metric: "latency_sum".to_string(),
            value: summary.clone(),
        },
        Sample {
            metric: "latency".to_string(),
            value: SampleValue::Counter(1),
        },
    ];
    assert_eq!(
        Benchmark::parse_histogram(&samples, "latency"),
        Err(BenchmarkError::ExpectedUntypedValue(summary))
    );
    let histogram = SampleValue::Histogram(vec![bucket(1, 1)]);
    let samples = vec![Sample {
        metric: "latency_count".to_string(),
        value: histogram.clone(),
    }];
    assert_eq!(
        Benchmark::parse_histogram(&samples, "latency"),
        Err(BenchmarkError::ExpectedUntypedValue(histogram))
    );
}

#[test]
fn parse_needs_buckets_count_and_sum() {
    let complete = latency_samples(vec![last_bucket(1)], 1, 1);
    for missing in 0..3 {
        let mut samples = complete.clone();
        samples.remove(missing);
        assert_eq!(
            Benchmark::parse_histogram(&samples, LATENCY_METRIC_PREFIX),
            Err(BenchmarkError::IncompleteHistogramData)
        );
    }
    assert_eq!(
        Benchmark::parse_histogram(&latency_samples(Vec::new(), 1, 1), LATENCY_METRIC_PREFIX),
        Err(BenchmarkError::IncompleteHistogramData)
    );
    assert_eq!(
        Benchmark::parse_histogram(&Vec::new(), LATENCY_METRIC_PREFIX),
        Err(BenchmarkError::IncompleteHistogramData)
    );
    assert_eq!(
        Benchmark::parse_histogram(&complete, "another_metric"),
        Err(BenchmarkError::IncompleteHistogramData)
    );
}

fn microseconds_buckets(fast: u64, slow: u64) -> Vec<HistogramCount> {
    vec![
        bucket(100_000, fast),
        bucket(500_000, fast + slow),
        last_bucket(fast + slow),
    ]
}

#[test]
fn store_keeps_the_last_snapshot_of_each_address() {
    let mut store = SnapshotStore::new();
    assert_eq!(store.get("a"), None);
    store.insert("a".to_string(), snapshot(vec![last_bucket(1)], 1, 1));
    store.insert("b".to_string(), snapshot(vec![last_bucket(2)], 2, 2));
    store.insert("a".to_string(), snapshot(vec![last_bucket(3)], 3, 3));
    assert_eq!(store.get("a"), Some(&snapshot(vec![last_bucket(3)], 3, 3)));
    assert_eq!(store.get("b"), Some(&snapshot(vec![last_bucket(2)], 2, 2)));
    assert_eq!(store.get("c"), None);
}

#[test]
fn healthy_validator_replaces_its_snapshot() {
    let mut store = SnapshotStore::new();
    store.insert(
        "http://a/metrics".to_string(),
        snapshot(microseconds_buckets(10, 0), 10, 0),
    );
    let samples = latency_samples(microseconds_buckets(110, 0), 110, 0);
    // Rank 99 of 100 lies in the first bucket: 99_000 microseconds.
    assert_eq!(
        check_validator(&mut store, "http://a/metrics", &samples),
        Ok(ValidatorHealth::Healthy(QuantileValue::Finite {
            numerator: 100_000 * 99,
            denominator: 100
        }))
    );
    assert_eq!(
        store.get("http://a/metrics"),
        Some(&snapshot(microseconds_buckets(110, 0), 110, 0))
    );
}

#[test]
fn unhealthy_validator_keeps_its_snapshot() {
    let mut store = SnapshotStore::new();
    let before = snapshot(microseconds_buckets(10, 0), 10, 0);
    store.insert("v".to_string(), before.clone());
    // 90 fast and 10 slow observations: rank 99 lies 9 of 10 into the
    // bucket from 100 ms to 500 ms, at 460 ms.
    let samples = latency_samples(microseconds_buckets(100, 10), 110, 0);
    assert_eq!(
        check_validator(&mut store, "v", &samples),
        Ok(ValidatorHealth::Unhealthy(QuantileValue::Finite {
            numerator: 100_000 * 1 + 500_000 * 9,
            denominator: 10
        }))
    );
    assert_eq!(store.get("v"), Some(&before));
}

#[test]
fn validator_without_new_observations_has_no_data() {
    let mut store = SnapshotStore::new();
    let before = snapshot(microseconds_buckets(10, 0), 10, 5);
    store.insert("v".to_string(), before.clone());
    let samples = latency_samples(microseconds_buckets(10, 0), 10, 9);
    assert_eq!(
        check_validator(&mut store, "v", &samples),
        Ok(ValidatorHealth::NoData)
    );
    assert_eq!(store.get("v"), Some(&before));
}

#[test]
fn validator_without_earlier_snapshot_is_an_error() {
    let mut store = SnapshotStore::new();
    let samples = latency_samples(microseconds_buckets(10, 0), 10, 0);
    assert_eq!(
        check_validator(&mut store, "unknown", &samples),
        Err(BenchmarkError::PreviousHistogramSnapshotDoesNotExist(
            "unknown".to_string()
        ))
    );
    assert_eq!(store.get("unknown"), None);
    // A scrape that cannot be read fails before the snapshot is missed.
    assert_eq!(
        check_validator(&mut store, "unknown", &Vec::new()),
        Err(BenchmarkError::IncompleteHistogramData)
    );
}

#[test]
fn validator_errors_are_passed_on() {
    let mut store = SnapshotStore::new();
    store.insert("v".to_string(), snapshot(microseconds_buckets(10, 0), 10, 0));
    let samples = latency_samples(microseconds_buckets(9, 0), 9, 0);
    assert_eq!(
        check_validator(&mut store, "v", &samples),
        Err(BenchmarkError::HistogramCountMismatch)
    );
    let samples = latency_samples(vec![bucket(1, 20), last_bucket(20)], 20, 0);
    assert_eq!(
        check_validator(&mut store, "v", &samples),
        Err(BenchmarkError::BucketBoundariesDoNotMatch(
            Some(Bound::Finite(100_000)),
            Some(Bound::Finite(1))
        ))
    );
    // The count grew but no bucket did.
    let samples = latency_samples(microseconds_buckets(10, 0), 20, 0);
    assert_eq!(
        check_validator(&mut store, "v", &samples),
        Err(BenchmarkError::CouldNotComputeQuantile)
    );
    let samples = latency_samples(vec![bucket(100_000, 20)], 20, 0);
    assert_eq!(
        check_validator(&mut store, "v", &samples),
        Err(BenchmarkError::BucketBoundariesDoNotMatch(
            Some(Bound::Finite(500_000)),
            None
        ))
    );
    store.insert("w".to_string(), snapshot(microseconds_buckets(10, 0), 10, 70));
    let samples = latency_samples(microseconds_buckets(20, 0), 20, 69);
    assert_eq!(
        check_validator(&mut store, "w", &samples),
        Err(BenchmarkError::HistogramSumMismatch)
    );
    assert_eq!(
        store.get("w"),
        Some(&snapshot(microseconds_buckets(10, 0), 10, 70))
    );
}

#[test]
fn last_bucket_boundary_is_that_of_the_last_bucket_but_one() {
    assert_eq!(
        snapshot(microseconds_buckets(1, 1), 2, 0).last_bucket_boundary(),
        Some(Bound::Finite(500_000))
    );
    assert_eq!(
        snapshot(vec![bucket(5, 1), last_bucket(1)], 1, 0).last_bucket_boundary(),
        Some(Bound::Finite(5))
    );
    assert_eq!(
        snapshot(vec![last_bucket(1)], 1, 0).last_bucket_boundary(),
        None
    );
    assert_eq!(snapshot(vec![], 0, 0).last_bucket_boundary(), None);
}

fn scrape(address: &str, samples: Vec<Sample>) -> ValidatorScrape {
    ValidatorScrape {
        address: address.to_string(),
        samples,
    }
}

#[test]
fn all_validators_healthy() {
    let mut store = SnapshotStore::new();
    store.insert("a".to_string(), snapshot(microseconds_buckets(0, 0), 0, 0));
    store.insert("b".to_string(), snapshot(microseconds_buckets(0, 0), 0, 0));
    let scrapes = vec![
        scrape("a", latency_samples(microseconds_buckets(50, 0), 50, 0)),
        scrape("b", latency_samples(microseconds_buckets(0, 0), 0, 0)),
    ];
    assert_eq!(Benchmark::validators_healthy(&scrapes, &mut store), Ok(true));
    assert_eq!(
        store.get("a"),
        Some(&snapshot(microseconds_buckets(50, 0), 50, 0))
    );
    assert_eq!(
        store.get("b"),
        Some(&snapshot(microseconds_buckets(0, 0), 0, 0))
    );
    assert_eq!(Benchmark::validators_healthy(&Vec::new(), &mut store), Ok(true));
}

#[test]
fn health_check_stops_at_the_first_unhealthy_validator() {
    let mut store = SnapshotStore::new();
    for address in ["a", "b", "c"] {
        store.insert(
            address.to_string(),
            snapshot(microseconds_buckets(0, 0), 0, 0),
        );
    }
    let scrapes = vec![
        scrape("a", latency_samples(microseconds_buckets(50, 0), 50, 0)),
        scrape("b", latency_samples(microseconds_buckets(50, 50), 100, 0)),
        scrape("c", latency_samples(microseconds_buckets(50, 0), 50, 0)),
    ];
    assert_eq!(Benchmark::validators_healthy(&scrapes, &mut store), Ok(false));
    assert_eq!(
        store.get("a"),
        Some(&snapshot(microseconds_buckets(50, 0), 50, 0))
    );
    assert_eq!(
        store.get("b"),
        Some(&snapshot(microseconds_buckets(0, 0), 0, 0))
    );
    assert_eq!(
        store.get("c"),
        Some(&snapshot(microseconds_buckets(0, 0), 0, 0))
    );
}

#[test]
fn health_check_stops_at_the_first_error() {
    let mut store = SnapshotStore::new();
    store.insert("a".to_string(), snapshot(microseconds_buckets(0, 0), 0, 0));
    let scrapes = vec![
        scrape("a", latency_samples(microseconds_buckets(50, 0), 50, 0)),
        scrape("b", latency_samples(microseconds_buckets(50, 0), 50, 0)),
        scrape("a", Vec::new()),
    ];
    assert_eq!(
        Benchmark::validators_healthy(&scrapes, &mut store),
        Err(BenchmarkError::PreviousHistogramSnapshotDoesNotExist(
            "b".to_string()
        ))
    );
    assert_eq!(
        store.get("a"),
        Some(&snapshot(microseconds_buckets(50, 0), 50, 0))
    );
}

#[test]
fn unbounded_p99_is_unhealthy() {
    let mut store = SnapshotStore::new();
    store.insert(
        "v".to_string(),
        snapshot(vec![bucket(10, 100), bucket(100, 150), last_bucket(200)], 200, 0),
    );
    let samples = latency_samples(
        vec![bucket(10, 100), bucket(100, 155), last_bucket(260)],
        260,
        0,
    );
    assert_eq!(
        check_validator(&mut store, "v", &samples),
        Ok(ValidatorHealth::Unhealthy(QuantileValue::Infinite))
    );
    assert_eq!(
        Benchmark::validators_healthy(&vec![scrape("v", samples)], &mut store),
        Ok(false)
    );
}

fn store_of(addresses: &[&str]) -> SnapshotStore {
    let mut store = SnapshotStore::new();
    for address in addresses {
        store.insert(
            address.to_string(),
            snapshot(microseconds_buckets(0, 0), 0, 0),
        );
    }
    store
}

#[test]
fn every_validator_checked_is_judged() {
    let mut store = store_of(&["a", "b", "c"]);
    let scrapes = vec![
        scrape("a", latency_samples(microseconds_buckets(50, 0), 50, 0)),
        scrape("b", latency_samples(microseconds_buckets(0, 0), 0, 0)),
        scrape("c", latency_samples(microseconds_buckets(4, 0), 4, 0)),
    ];
    assert_eq!(
        Benchmark::judge_validators(&scrapes, &mut store),
        HealthRound {
            judgements: vec![
                ValidatorHealth::Healthy(QuantileValue::Finite {
                    numerator: 100_000 * 50,
                    denominator: 50
                }),
                ValidatorHealth::NoData,
                ValidatorHealth::Healthy(QuantileValue::Finite {
                    numerator: 100_000 * 4,
                    denominator: 4
                }),
            ],
            healthy: Ok(true),
        }
    );
    assert_eq!(
        Benchmark::judge_validators(&Vec::new(), &mut store),
        HealthRound {
            judgements: vec![],
            healthy: Ok(true)
        }
    );
}

#[test]
fn judgements_end_with_the_first_unhealthy_validator() {
    let mut store = store_of(&["a", "b", "c"]);
    let scrapes = vec![
        scrape("a", latency_samples(microseconds_buckets(0, 0), 0, 0)),
        scrape(
            "b",
            latency_samples(
                vec![bucket(100_000, 1), bucket(500_000, 1), last_bucket(9)],
                9,
                0,
            ),
        ),
        scrape("c", latency_samples(microseconds_buckets(50, 0), 50, 0)),
    ];
    assert_eq!(
        Benchmark::judge_validators(&scrapes, &mut store),
        HealthRound {
            judgements: vec![
                ValidatorHealth::NoData,
                ValidatorHealth::Unhealthy(QuantileValue::Infinite),
            ],
            healthy: Ok(false),
        }
    );
    // The estimate lies above the last boundary that the buckets have.
    assert_eq!(
        store.get("b").unwrap().last_bucket_boundary(),
        Some(Bound::Finite(500_000))
    );
}

#[test]
fn judgements_end_before_the_first_failure() {
    let mut store = store_of(&["a"]);
    let scrapes = vec![
        scrape("a", latency_samples(microseconds_buckets(50, 0), 50, 0)),
        scrape("b", latency_samples(microseconds_buckets(50, 0), 50, 0)),
        scrape("a", latency_samples(microseconds_buckets(60, 0), 60, 0)),
    ];
    let round = Benchmark::judge_validators(&scrapes, &mut store);
    assert_eq!(round.judgements.len(), 1);
    assert_eq!(
        round.healthy,
        Err(BenchmarkError::PreviousHistogramSnapshotDoesNotExist(
            "b".to_string()
        ))
    );
}
