use linera_toolkit::quantile::Quantile;
use linera_toolkit::timings::{
    BlockTimeTimings, BlockTimeTimingsHistograms, BlockTimings, BlockTimingsHistograms,
    SubmitFastBlockProposalTimings, SubmitFastBlockProposalTimingsHistograms,
};

fn submit_timings(base: u64) -> SubmitFastBlockProposalTimings {
    SubmitFastBlockProposalTimings {
        creating_proposal_ms: base + 1,
        stage_block_execution_ms: base + 2,
        creating_confirmed_block_ms: base + 3,
        submitting_block_proposal_ms: base + 4,
    }
}

fn block_time_timings(base: u64) -> BlockTimeTimings {
    BlockTimeTimings {
        get_pending_message_bundles_ms: base + 5,
        submit_fast_block_proposal_ms: base + 6,
        submit_fast_block_proposal_timings: submit_timings(base),
        communicate_chain_updates_ms: base + 7,
    }
}

fn block_timings(base: u64) -> BlockTimings {
    BlockTimings {
        block_time_ms: base + 8,
        block_time_timings: block_time_timings(base),
    }
}

fn p(percent: u8) -> Quantile {
    Quantile { percent }
}

#[test]
fn empty_histograms_estimate_zero() {
    let histograms = BlockTimingsHistograms::new().unwrap();
    assert_eq!(
        histograms.quantiles(p(99)),
        BlockTimings {
            block_time_ms: 0,
            block_time_timings: BlockTimeTimings {
                get_pending_message_bundles_ms: 0,
                submit_fast_block_proposal_ms: 0,
                submit_fast_block_proposal_timings: SubmitFastBlockProposalTimings {
                    creating_proposal_ms: 0,
                    stage_block_execution_ms: 0,
                    creating_confirmed_block_ms: 0,
                    submitting_block_proposal_ms: 0,
                },
                communicate_chain_updates_ms: 0,
            },
        }
    );
}

#[test]
fn each_duration_goes_to_the_histogram_of_its_stage() {
    let mut histograms = BlockTimingsHistograms::new().unwrap();
    assert_eq!(histograms.record(block_timings(10)), Ok(()));
    // A single value is every quantile of its histogram.
    assert_eq!(histograms.quantiles(p(50)), block_timings(10));
    assert_eq!(histograms.quantiles(p(99)), block_timings(10));

    let mut histograms = BlockTimeTimingsHistograms::new().unwrap();
    assert_eq!(histograms.record(block_time_timings(20)), Ok(()));
    assert_eq!(histograms.quantiles(p(90)), block_time_timings(20));

    let mut histograms = SubmitFastBlockProposalTimingsHistograms::new().unwrap();
    assert_eq!(histograms.record(submit_timings(30)), Ok(()));
    assert_eq!(histograms.quantiles(p(95)), submit_timings(30));
}

#[test]
fn quantiles_follow_the_recorded_values() {
    let mut histograms = BlockTimingsHistograms::new().unwrap();
    for base in 0..100 {
        histograms.record(block_timings(base)).unwrap();
    }
    // Block times are 8 to 107; below 200 the histogram keeps every unit.
    let median = histograms.quantiles(p(50));
    assert_eq!(median.block_time_ms, 57);
    assert_eq!(median.block_time_timings.get_pending_message_bundles_ms, 54);
    assert_eq!(
        median
            .block_time_timings
            .submit_fast_block_proposal_timings
            .creating_proposal_ms,
        50
    );
    let p99 = histograms.quantiles(p(99));
    assert_eq!(p99.block_time_ms, 106);
    assert_eq!(p99.block_time_timings.communicate_chain_updates_ms, 105);
    assert_eq!(histograms.quantiles(p(100)).block_time_ms, 107);
    assert_eq!(histograms.quantiles(p(0)).block_time_ms, 8);
}

#[test]
fn large_durations_are_kept_to_two_significant_digits() {
    let mut histograms = SubmitFastBlockProposalTimingsHistograms::new().unwrap();
    histograms
        .record(SubmitFastBlockProposalTimings {
            creating_proposal_ms: 1_000_000,
            stage_block_execution_ms: u64::MAX,
            creating_confirmed_block_ms: 0,
            submitting_block_proposal_ms: 255,
        })
        .unwrap();
    let estimates = histograms.quantiles(p(99));
    let error = estimates.creating_proposal_ms.abs_diff(1_000_000);
    assert!(error * 100 <= 1_000_000);
    assert!(estimates.stage_block_execution_ms >= u64::MAX / 100 * 99);
    assert_eq!(estimates.creating_confirmed_block_ms, 0);
    assert_eq!(estimates.submitting_block_proposal_ms, 255);
}

#[test]
fn reported_estimates_are_in_the_order_of_their_quantiles() {
    let mut histograms = BlockTimingsHistograms::new().unwrap();
    for base in [3, 1000, 40, 7, 250_000, 16, 90, 5, 12_345, 2] {
        assert_eq!(histograms.record(block_timings(base)), Ok(()));
    }
    let reports = histograms.report();
    let percents: Vec<u8> = reports.iter().map(|report| report.quantile.percent).collect();
    assert_eq!(percents, vec![99, 95, 90, 50]);
    let values = |timings: &BlockTimings| {
        let steps = timings.block_time_timings;
        let stages = steps.submit_fast_block_proposal_timings;
        [
            timings.block_time_ms,
            steps.get_pending_message_bundles_ms,
            steps.submit_fast_block_proposal_ms,
            stages.creating_proposal_ms,
            stages.stage_block_execution_ms,
            stages.creating_confirmed_block_ms,
            stages.submitting_block_proposal_ms,
            steps.communicate_chain_updates_ms,
        ]
    };
    for pair in reports.windows(2) {
        let higher = values(&pair[0].estimates);
        let lower = values(&pair[1].estimates);
        for stage in 0..8 {
            assert!(lower[stage] <= higher[stage]);
        }
    }
    for report in &reports {
        assert_eq!(report.estimates, histograms.quantiles(report.quantile));
    }
}

#[test]
fn every_value_is_recorded() {
    let mut histograms = SubmitFastBlockProposalTimingsHistograms::new().unwrap();
    for value in [0, 1, 255, 256, 1 << 20, 1 << 40, u64::MAX / 2, u64::MAX - 1, u64::MAX] {
        assert_eq!(
            histograms.record(SubmitFastBlockProposalTimings {
                creating_proposal_ms: value,
                stage_block_execution_ms: value,
                creating_confirmed_block_ms: value,
                submitting_block_proposal_ms: value,
            }),
            Ok(())
        );
    }
    assert_eq!(histograms.quantiles(p(0)).creating_proposal_ms, 0);
}
