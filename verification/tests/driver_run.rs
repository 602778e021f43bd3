use prom_cloudwatch::batch::make_batches;
use prom_cloudwatch::datum::MetricDataPoint;
use prom_cloudwatch::driver::{RunOutcome, SubmissionDriver};
use prom_cloudwatch::values::MetricValue;

fn batches_of(n: usize) -> Vec<prom_cloudwatch::batch::Batch> {
    let points: Vec<MetricDataPoint> = (0..n)
        .map(|i| MetricDataPoint {
            metric_name: format!("metric_{}", i),
            dimensions: vec![],
            value: MetricValue { bits: 0 },
            timestamp: "1970-01-01T00:00:00+00:00".to_string(),
        })
        .collect();
    let ns = "Prometheus".to_string();
    make_batches(points, &ns)
}

#[test]
fn scenario_d_failure_on_batch_2_stops_the_run() {
    let mut driver = SubmissionDriver::new(batches_of(45));
    assert_eq!(driver.batch_count(), 3);

    // batch 1 goes through
    assert_eq!(driver.pending_batch(), Some(0));
    driver.record_success();

    // batch 2 fails
    assert_eq!(driver.pending_batch(), Some(1));
    driver.record_failure();

    // batch 3 is never offered, and the run reports the batch-2 failure
    assert_eq!(driver.pending_batch(), None);
    assert_eq!(driver.outcome(), RunOutcome::Failed { batch_index: 1 });
}

#[test]
fn all_batches_submitted_in_order() {
    let mut driver = SubmissionDriver::new(batches_of(45));
    let mut seen = vec![];
    while let Some(i) = driver.pending_batch() {
        seen.push(i);
        assert!(driver.batch_at(i).metric_data.len() <= 20);
        driver.record_success();
    }
    assert_eq!(seen, vec![0, 1, 2]);
    assert_eq!(driver.outcome(), RunOutcome::Complete);
}

#[test]
fn empty_run_is_complete_at_once() {
    let driver = SubmissionDriver::new(batches_of(0));
    assert_eq!(driver.pending_batch(), None);
    assert_eq!(driver.outcome(), RunOutcome::Complete);
}

#[test]
fn fresh_run_is_in_progress() {
    let driver = SubmissionDriver::new(batches_of(1));
    assert_eq!(driver.outcome(), RunOutcome::InProgress);
}
