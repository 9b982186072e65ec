use nlbn::batch::{after_conversion, batch_mode, BatchMode, BatchRun, SequentialStep};
use nlbn::retry::{after_failed_attempt, RetryStep};

#[test]
fn mode_selection() {
    assert_eq!(batch_mode(1, 4), BatchMode::Sequential);
    assert_eq!(batch_mode(5, 1), BatchMode::Sequential);
    assert_eq!(batch_mode(5, 0), BatchMode::Sequential);
    assert_eq!(batch_mode(2, 2), BatchMode::Parallel);
}

#[test]
fn all_succeeding_batch_respects_capacity() {
    let ids: Vec<String> = (0..10).map(|i| format!("C{}", i)).collect();
    let mut run = BatchRun::new(ids.len(), 3);
    let mut in_flight: Vec<usize> = Vec::new();
    let mut most = 0;
    while !run.is_done() {
        while let Some(i) = run.start() {
            in_flight.push(i);
            most = most.max(in_flight.len());
        }
        let i = in_flight.remove(0);
        run.finish(&ids[i], true);
    }
    assert!(most <= 3);
    assert_eq!(most, 3);
    assert_eq!(run.success_count(), 10);
    assert_eq!(run.failure_count(), 0);
    assert_eq!(run.total(), 10);
    assert!(run.failed_ids().is_empty());
}

#[test]
fn failures_are_listed() {
    let mut run = BatchRun::new(3, 2);
    assert_eq!(run.start(), Some(0));
    assert_eq!(run.start(), Some(1));
    assert_eq!(run.start(), None);
    run.finish("C1", false);
    assert_eq!(run.start(), Some(2));
    run.finish("C0", true);
    run.finish("C2", false);
    assert!(run.is_done());
    assert_eq!(run.success_count(), 1);
    assert_eq!(run.failure_count(), 2);
    assert_eq!(run.failed_ids(), vec!["C1".to_string(), "C2".to_string()]);
}

#[test]
fn sequential_abort_rule() {
    assert_eq!(after_conversion(true, false), SequentialStep::Continue);
    assert_eq!(after_conversion(false, true), SequentialStep::Continue);
    assert_eq!(after_conversion(false, false), SequentialStep::Abort);
}

#[test]
fn retry_backoff() {
    assert_eq!(after_failed_attempt(1), RetryStep::Retry(500));
    assert_eq!(after_failed_attempt(2), RetryStep::Retry(1000));
    assert_eq!(after_failed_attempt(3), RetryStep::GiveUp);
}
