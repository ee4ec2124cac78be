use tubu::download::{
    classify_round, DownloadStep, RetrySchedule, RoundOutcome, SegmentOutcome, NUM_ATTEMPTS,
};

fn failed(name: &str, timeout: bool) -> SegmentOutcome {
    SegmentOutcome::Failed { name: name.to_string(), timeout }
}

#[test]
fn cancellation_wins_over_everything() {
    let outs = vec![failed("a", false), SegmentOutcome::Saved];
    assert!(matches!(classify_round(&outs, true, true), RoundOutcome::Cancelled));
}

#[test]
fn all_saved_leaves_nothing_pending() {
    let outs = vec![SegmentOutcome::Saved, SegmentOutcome::Saved];
    match classify_round(&outs, false, false) {
        RoundOutcome::Pending(left) => assert!(left.is_empty()),
        other => panic!("unexpected {:?}", other),
    }
}

#[test]
fn forgiven_timeouts_are_left_for_next_round() {
    let outs = vec![failed("s1", true), SegmentOutcome::Saved, failed("s3", true)];
    match classify_round(&outs, false, true) {
        RoundOutcome::Pending(left) => assert_eq!(left, vec!["s1".to_string(), "s3".to_string()]),
        other => panic!("unexpected {:?}", other),
    }
}

#[test]
fn timeouts_in_last_round_fail() {
    let outs = vec![SegmentOutcome::Saved, failed("s2", true)];
    match classify_round(&outs, false, false) {
        RoundOutcome::Failed(ix) => assert_eq!(ix, vec![1]),
        other => panic!("unexpected {:?}", other),
    }
}

#[test]
fn other_failures_are_never_forgiven() {
    let outs = vec![failed("s1", true), failed("s2", false), SegmentOutcome::Saved];
    match classify_round(&outs, false, true) {
        RoundOutcome::Failed(ix) => assert_eq!(ix, vec![0, 1]),
        other => panic!("unexpected {:?}", other),
    }
}

#[test]
fn schedule_runs_at_most_num_attempts_rounds_and_ends_empty() {
    let mut sched = RetrySchedule::new(vec!["a".to_string(), "b".to_string()]);
    assert_eq!(sched.attempts_left, NUM_ATTEMPTS);
    let mut rounds = 0;
    while sched.has_work() {
        rounds += 1;
        assert_eq!(sched.is_retry(), rounds > 1);
        let segs = sched.take_pending();
        let outs: Vec<SegmentOutcome> = segs.iter().map(|n| failed(n, true)).collect();
        match classify_round(&outs, false, sched.forgive_timeouts()) {
            RoundOutcome::Pending(left) => sched.record_round(left),
            RoundOutcome::Failed(ix) => {
                assert_eq!(rounds, NUM_ATTEMPTS);
                assert_eq!(ix, vec![0, 1]);
                return;
            },
            RoundOutcome::Cancelled => panic!("not cancelled"),
        }
    }
    panic!("the last round must fail on timeouts");
}

#[test]
fn schedule_stops_when_everything_is_saved() {
    let mut sched = RetrySchedule::new(vec!["a".to_string()]);
    assert!(sched.forgive_timeouts());
    let segs = sched.take_pending();
    assert_eq!(segs, vec!["a".to_string()]);
    let outs = vec![SegmentOutcome::Saved];
    if let RoundOutcome::Pending(left) = classify_round(&outs, false, sched.forgive_timeouts()) {
        sched.record_round(left);
    }
    assert!(!sched.has_work());
    assert!(sched.pending.is_empty());
    assert_eq!(sched.attempts_left, NUM_ATTEMPTS - 1);
}

#[test]
fn after_round_steps() {
    let mut sched = RetrySchedule::new(vec!["a".to_string(), "b".to_string()]);
    let segs = sched.take_pending();
    let outs: Vec<SegmentOutcome> = segs.iter().map(|n| failed(n, true)).collect();
    let step = sched.after_round(classify_round(&outs, false, sched.forgive_timeouts()));
    assert!(matches!(step, DownloadStep::Continue));
    assert_eq!(sched.pending, vec!["a".to_string(), "b".to_string()]);
    assert_eq!(sched.attempts_left, NUM_ATTEMPTS - 1);
    let segs = sched.take_pending();
    let outs = vec![SegmentOutcome::Saved, failed(&segs[1], true)];
    match sched.after_round(classify_round(&outs, false, sched.forgive_timeouts())) {
        DownloadStep::Failed(ix) => assert_eq!(ix, vec![1]),
        other => panic!("unexpected {:?}", other),
    }
    let mut sched = RetrySchedule::new(vec!["x".to_string()]);
    let _ = sched.take_pending();
    let step = sched.after_round(classify_round(&vec![SegmentOutcome::Saved], false, true));
    assert!(matches!(step, DownloadStep::Done));
    assert!(sched.pending.is_empty());
    let mut sched = RetrySchedule::new(vec!["y".to_string()]);
    assert!(matches!(sched.after_round(RoundOutcome::Cancelled), DownloadStep::Cancelled));
}
