use recur64::batcher::{is_timeout_flush, on_idle, replies, BatchStats, IdleEvent, IdleStep, Reply, MAX_SAMPLES};
use recur64::evaluator::EvalError;

#[test]
fn idle_steps_follow_shutdown_and_disconnects() {
    assert_eq!(on_idle(IdleEvent::Request, false), IdleStep::Serve);
    assert_eq!(on_idle(IdleEvent::Request, true), IdleStep::RefuseAndStop);
    assert_eq!(on_idle(IdleEvent::TimedOut, false), IdleStep::KeepWaiting);
    assert_eq!(on_idle(IdleEvent::TimedOut, true), IdleStep::Stop);
    assert_eq!(on_idle(IdleEvent::Disconnected, false), IdleStep::Stop);
}

#[test]
fn every_request_gets_one_reply() {
    assert_eq!(replies(3, &Ok(3)), vec![Reply::Result(0), Reply::Result(1), Reply::Result(2)]);
    let mismatch = || Reply::Error(EvalError::Backend("batch result length mismatch".to_string()));
    assert_eq!(replies(2, &Ok(1)), vec![mismatch(), mismatch()]);
    let e = EvalError::Invalid("empty".to_string());
    assert_eq!(replies(2, &Err(e.clone())), vec![Reply::Error(e.clone()), Reply::Error(e)]);
    assert!(replies(0, &Ok(0)).is_empty());
}

#[test]
fn metrics_are_recorded() {
    let mut s = BatchStats::new();
    s.record_submitted();
    s.record_submitted();
    s.record_submitted();
    s.record_batch(2, 40, 900);
    s.record_batch(1, 10, 300);
    assert_eq!(s.batches, 2);
    assert_eq!(s.batch_size_sum, 3);
    assert_eq!(s.batch_size_max, 2);
    assert_eq!(s.batch_sizes, vec![2, 1]);
    assert_eq!(s.queue_waits_us, vec![40, 10]);
    s.record_replies(&replies(2, &Ok(2)));
    s.record_replies(&replies(1, &Err(EvalError::Shutdown)));
    assert_eq!(s.completed, 2);
    assert_eq!(s.errors, 1);
    assert_eq!(s.completed + s.errors, s.submitted);
    assert!(is_timeout_flush(true, 1, 32));
    assert!(!is_timeout_flush(true, 32, 32));
    assert!(!is_timeout_flush(false, 1, 32));
    assert_eq!(MAX_SAMPLES, 1_000_000);
}

#[test]
fn errors_propagate_to_every_request() {
    let mut s = BatchStats::new();
    s.record_submitted();
    let e = EvalError::Backend("model failed".to_string());
    let r = replies(1, &Err(e.clone()));
    assert_eq!(r, vec![Reply::Error(e)]);
    assert!(r.iter().all(|x| matches!(x, Reply::Error(_))));
    s.record_batch(1, 5, 50);
    s.record_replies(&r);
    assert_eq!(s.submitted, 1);
    assert_eq!(s.completed, 0);
    assert_eq!(s.errors, 1);
}

#[test]
fn counters_balance_once_every_request_is_answered() {
    let mut s = BatchStats::new();
    for _ in 0..5 {
        s.record_submitted();
    }
    s.record_batch(3, 10, 100);
    s.record_replies(&replies(3, &Ok(3)));
    assert_ne!(s.submitted, s.completed + s.errors);
    s.record_batch(1, 10, 100);
    s.record_replies(&replies(1, &Ok(0)));
    s.record_error();
    assert_eq!(s.submitted, 5);
    assert_eq!(s.completed, 3);
    assert_eq!(s.errors, 2);
    assert_eq!(s.submitted, s.completed + s.errors);
}
