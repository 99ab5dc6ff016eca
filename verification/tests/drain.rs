use halogen_ui_core::drain::{
    after_op, run_drain, drain_gate, drain_failure_status, HeadRetry, drain_end, drain_skips, start_drain, DrainEnd, DrainStart, DrainTally, OpAction,
    OpOutcome, OUTBOX_DEAD_LETTER_ATTEMPTS,
};

#[test]
fn drain_skips_grow_exponentially_and_cap() {
    assert_eq!(drain_skips(0), 0);
    assert_eq!(drain_skips(1), 1);
    assert_eq!(drain_skips(2), 3);
    assert_eq!(drain_skips(3), 7);
    assert_eq!(drain_skips(4), 15);
    assert_eq!(drain_skips(50), 15);
}

/// Drive the drain decisions against a head op that always fails with a
/// countable error: count how many attempts reach the server.
#[test]
fn countable_head_backs_off_then_dead_letters() {
    let mut hr = None;
    let mut hits = 0u32;
    let mut queued = true;
    for _ in 0..200 {
        if !queued {
            break;
        }
        match start_drain(&mut hr, Some(1)) {
            DrainStart::Proceed => {
                hits += 1;
                let mut tally = DrainTally::new();
                let a = after_op(&mut hr, &mut tally, 1, OpOutcome::Countable, false);
                if a == OpAction::DropExhausted {
                    queued = false;
                } else if hits == 1 {
                    // The drain right after the first failure backs off.
                    assert_eq!(start_drain(&mut hr.clone(), Some(1)), DrainStart::Backoff);
                }
            }
            DrainStart::Backoff => {}
            DrainStart::Idle => unreachable!(),
        }
    }
    assert!(!queued, "op dead-lettered after budget exhaustion");
    assert_eq!(hits, OUTBOX_DEAD_LETTER_ATTEMPTS);
    assert!(hr.is_none());
}

#[test]
fn transport_failures_never_arm_the_budget() {
    let mut hr = None;
    for _ in 0..(OUTBOX_DEAD_LETTER_ATTEMPTS + 5) {
        assert_eq!(start_drain(&mut hr, Some(1)), DrainStart::Proceed);
        let mut tally = DrainTally::new();
        let a = after_op(&mut hr, &mut tally, 1, OpOutcome::Transient, false);
        assert_eq!(a, OpAction::KeepQueued);
        assert_eq!(tally.failures, 1);
    }
    assert!(hr.is_none());
}

#[test]
fn delivered_ops_ack_and_flag_a_pull() {
    let mut hr = None;
    let mut tally = DrainTally::new();
    assert_eq!(start_drain(&mut hr, None), DrainStart::Idle);
    assert_eq!(after_op(&mut hr, &mut tally, 1, OpOutcome::Delivered, true), OpAction::Ack);
    assert_eq!(after_op(&mut hr, &mut tally, 2, OpOutcome::Permanent, false), OpAction::DropRejected);
    assert_eq!(tally, DrainTally { failures: 0, dropped: 1, needs_pull: true });
    assert_eq!(drain_end(&tally, false), DrainEnd::Pull);
    assert_eq!(drain_end(&DrainTally::new(), true), DrainEnd::Offline);
    assert_eq!(drain_end(&DrainTally::new(), false), DrainEnd::Online);
}

#[test]
fn drain_runs_in_order_and_stops_at_a_kept_head() {
    let mut hr = None;
    let mut tally = DrainTally::new();
    let ops = vec![1u64, 2, 3, 4, 5];
    let pulls = vec![false, true, false, false, false];
    let outcomes = vec![
        OpOutcome::Delivered,
        OpOutcome::Delivered,
        OpOutcome::Permanent,
        OpOutcome::Transient,
        OpOutcome::Delivered,
    ];
    let run = run_drain(&mut hr, &mut tally, &ops, &pulls, &outcomes);
    // Op 4 stays queued; op 5 behind it is neither attempted nor acked.
    assert_eq!(run.acked, vec![1, 2, 3]);
    assert_eq!(run.attempted, 4);
    assert!(run.stopped);
    assert_eq!(tally, DrainTally { failures: 1, dropped: 1, needs_pull: true });
    assert_eq!(hr, None);
}

#[test]
fn drain_countable_head_backs_off_and_stops() {
    let mut hr = None;
    let mut tally = DrainTally::new();
    let ops = vec![7u64, 8];
    let pulls = vec![false, false];
    let outcomes = vec![OpOutcome::Countable, OpOutcome::Delivered];
    let run = run_drain(&mut hr, &mut tally, &ops, &pulls, &outcomes);
    assert!(run.acked.is_empty());
    assert_eq!(run.attempted, 1);
    assert!(run.stopped);
    assert_eq!(hr, Some(HeadRetry { op_id: 7, failures: 1, skip_drains: 1 }));
}

#[test]
fn drain_exhausted_head_is_dropped_and_the_drain_goes_on() {
    let mut hr = Some(HeadRetry { op_id: 7, failures: 9, skip_drains: 0 });
    let mut tally = DrainTally::new();
    let ops = vec![7u64, 8];
    let pulls = vec![false, false];
    let outcomes = vec![OpOutcome::Countable, OpOutcome::Delivered];
    let run = run_drain(&mut hr, &mut tally, &ops, &pulls, &outcomes);
    assert_eq!(run.acked, vec![7, 8]);
    assert_eq!(run.attempted, 2);
    assert!(!run.stopped);
    assert_eq!(hr, None);
    assert_eq!(tally.dropped, 1);
}

#[test]
fn drain_of_nothing_attempts_nothing() {
    let mut hr = None;
    let mut tally = DrainTally::new();
    let run = run_drain(&mut hr, &mut tally, &vec![], &vec![], &vec![]);
    assert_eq!(run.attempted, 0);
    assert!(run.acked.is_empty());
    assert!(!run.stopped);
    assert_eq!(tally, DrainTally::new());
}

#[test]
fn drain_is_held_offline_or_without_a_client() {
    assert!(drain_gate(false, true));
    assert!(!drain_gate(true, true));
    assert!(!drain_gate(false, false));
    assert!(!drain_gate(true, false));
}

#[test]
fn drain_failure_status_counts_failed_ops() {
    assert_eq!(drain_failure_status(&DrainTally::new()), None);
    let t = DrainTally { failures: 3, dropped: 1, needs_pull: false };
    assert_eq!(drain_failure_status(&t), Some("3 pending action(s) failed to sync".to_string()));
}
