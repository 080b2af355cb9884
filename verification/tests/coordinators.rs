use cellex_actor_core_rs::{
    apply_call, replay_calls, AdaptiveCoordinator, CoordinatorCall, Delay, DefaultReadyQueueCoordinator, DefaultReadyQueueCoordinatorV2, InvokeResult,
    LockFreeCoordinator, LockFreeCoordinatorV2, MailboxIndex, ReadyQueueCoordinator, ReadyQueueCoordinatorV2,
    ResumeCondition, SuspendReason,
};

#[test]
fn test_adaptive_selection() {
    let coord_low = AdaptiveCoordinator::new(32, 2);
    let coord_boundary = AdaptiveCoordinator::new(32, 4);
    let coord_high = AdaptiveCoordinator::new(32, 8);

    assert_eq!(coord_low.throughput_hint(), 32);
    assert_eq!(coord_boundary.throughput_hint(), 32);
    assert_eq!(coord_high.throughput_hint(), 32);
}

#[test]
fn test_explicit_strategy() {
    let coord_locked = AdaptiveCoordinator::with_strategy(32, false);
    assert_eq!(coord_locked.throughput_hint(), 32);
}

#[test]
fn test_register_and_drain() {
    let mut coord = AdaptiveCoordinator::new(32, 2);
    let idx = MailboxIndex::new(1, 0);

    coord.register_ready(idx);

    let mut out = Vec::new();
    coord.drain_ready_cycle(10, &mut out);

    assert_eq!(out.len(), 1);
    assert_eq!(out[0], idx);
}

#[test]
fn tests_test_register_and_drain() {
    let mut coord = DefaultReadyQueueCoordinatorV2::new(32);
    let idx = MailboxIndex::new(1, 0);

    coord.register_ready(idx);

    let mut out = Vec::new();
    coord.drain_ready_cycle(10, &mut out);

    assert_eq!(out.len(), 1);
    assert_eq!(out[0], idx);
}

#[test]
fn test_duplicate_detection() {
    let mut coord = DefaultReadyQueueCoordinatorV2::new(32);
    let idx = MailboxIndex::new(1, 0);

    coord.register_ready(idx);
    coord.register_ready(idx);
    coord.register_ready(idx);

    let mut out = Vec::new();
    coord.drain_ready_cycle(10, &mut out);

    assert_eq!(out.len(), 1);
    assert_eq!(out[0], idx);
}

#[test]
fn test_unregister() {
    let mut coord = DefaultReadyQueueCoordinatorV2::new(32);
    let idx = MailboxIndex::new(1, 0);

    coord.register_ready(idx);
    coord.unregister(idx);

    let mut out = Vec::new();
    coord.drain_ready_cycle(10, &mut out);

    assert_eq!(out.len(), 0);
}

#[test]
fn test_handle_invoke_result() {
    let mut coord = DefaultReadyQueueCoordinatorV2::new(32);
    let idx = MailboxIndex::new(1, 0);

    coord.handle_invoke_result(idx, InvokeResult::Completed { ready_hint: true });

    let mut out = Vec::new();
    coord.drain_ready_cycle(10, &mut out);

    assert_eq!(out.len(), 1);
    assert_eq!(out[0], idx);
}

#[test]
fn test_register_ready_basic() {
    let mut coordinator = DefaultReadyQueueCoordinator::new(32);
    let idx = MailboxIndex::new(1, 0);

    coordinator.register_ready(idx);

    let mut out = Vec::new();
    coordinator.drain_ready_cycle(10, &mut out);

    assert_eq!(out.len(), 1);
    assert_eq!(out[0], idx);
}

#[test]
fn test_register_ready_duplicate_prevention() {
    let mut coordinator = DefaultReadyQueueCoordinator::new(32);
    let idx = MailboxIndex::new(1, 0);

    coordinator.register_ready(idx);
    coordinator.register_ready(idx);

    let mut out = Vec::new();
    coordinator.drain_ready_cycle(10, &mut out);

    assert_eq!(out.len(), 1);
    assert_eq!(out[0], idx);
}

#[test]
fn test_drain_ready_cycle_batch_limit() {
    let mut coordinator = DefaultReadyQueueCoordinator::new(32);

    for i in 0..5 {
        coordinator.register_ready(MailboxIndex::new(i, 0));
    }

    let mut out = Vec::new();
    coordinator.drain_ready_cycle(3, &mut out);

    assert_eq!(out.len(), 3);

    out.clear();
    coordinator.drain_ready_cycle(10, &mut out);

    assert_eq!(out.len(), 2);
}

#[test]
fn tests_test_unregister() {
    let mut coordinator = DefaultReadyQueueCoordinator::new(32);
    let idx1 = MailboxIndex::new(1, 0);
    let idx2 = MailboxIndex::new(2, 0);

    coordinator.register_ready(idx1);
    coordinator.register_ready(idx2);
    coordinator.unregister(idx1);

    let mut out = Vec::new();
    coordinator.drain_ready_cycle(10, &mut out);

    assert_eq!(out.len(), 1);
    assert_eq!(out[0], idx2);
}

#[test]
fn test_handle_invoke_result_completed_with_ready_hint() {
    let mut coordinator = DefaultReadyQueueCoordinator::new(32);
    let idx = MailboxIndex::new(1, 0);

    coordinator.handle_invoke_result(idx, InvokeResult::Completed { ready_hint: true });

    let mut out = Vec::new();
    coordinator.drain_ready_cycle(10, &mut out);

    assert_eq!(out.len(), 1);
    assert_eq!(out[0], idx);
}

#[test]
fn test_handle_invoke_result_completed_without_ready_hint() {
    let mut coordinator = DefaultReadyQueueCoordinator::new(32);
    let idx = MailboxIndex::new(1, 0);

    coordinator.register_ready(idx);
    coordinator.handle_invoke_result(idx, InvokeResult::Completed { ready_hint: false });

    let mut out = Vec::new();
    coordinator.drain_ready_cycle(10, &mut out);

    assert_eq!(out.len(), 0);
}

#[test]
fn test_handle_invoke_result_yielded() {
    let mut coordinator = DefaultReadyQueueCoordinator::new(32);
    let idx = MailboxIndex::new(1, 0);

    coordinator.handle_invoke_result(idx, InvokeResult::Yielded);

    let mut out = Vec::new();
    coordinator.drain_ready_cycle(10, &mut out);

    assert_eq!(out.len(), 1);
    assert_eq!(out[0], idx);
}

#[test]
fn test_handle_invoke_result_suspended() {
    let mut coordinator = DefaultReadyQueueCoordinator::new(32);
    let idx = MailboxIndex::new(1, 0);

    coordinator.register_ready(idx);
    coordinator.handle_invoke_result(
        idx,
        InvokeResult::Suspended { reason: SuspendReason::Backpressure, resume_on: ResumeCondition::WhenCapacityAvailable },
    );

    let mut out = Vec::new();
    coordinator.drain_ready_cycle(10, &mut out);

    assert_eq!(out.len(), 0);
}

#[test]
fn test_handle_invoke_result_stopped() {
    let mut coordinator = DefaultReadyQueueCoordinator::new(32);
    let idx = MailboxIndex::new(1, 0);

    coordinator.register_ready(idx);
    coordinator.handle_invoke_result(idx, InvokeResult::Stopped);

    let mut out = Vec::new();
    coordinator.drain_ready_cycle(10, &mut out);

    assert_eq!(out.len(), 0);
}

#[test]
fn test_throughput_hint() {
    let coordinator = DefaultReadyQueueCoordinator::new(64);
    assert_eq!(coordinator.throughput_hint(), 64);
}

#[test]
fn lock_free_test_register_and_drain() {
    let mut coord = LockFreeCoordinator::new(32);
    let idx = MailboxIndex::new(1, 0);

    coord.register_ready(idx);

    let mut out = Vec::new();
    coord.drain_ready_cycle(10, &mut out);

    assert_eq!(out.len(), 1);
    assert_eq!(out[0], idx);
}

#[test]
fn tests_test_duplicate_detection() {
    let mut coord = LockFreeCoordinator::new(32);
    let idx = MailboxIndex::new(1, 0);

    coord.register_ready(idx);
    coord.register_ready(idx);
    coord.register_ready(idx);

    let mut out = Vec::new();
    coord.drain_ready_cycle(10, &mut out);

    assert_eq!(out.len(), 1);
    assert_eq!(out[0], idx);
}

#[test]
fn lock_free_test_unregister() {
    let mut coord = LockFreeCoordinator::new(32);
    let idx = MailboxIndex::new(1, 0);

    coord.register_ready(idx);
    coord.unregister(idx);

    let mut out = Vec::new();
    coord.drain_ready_cycle(10, &mut out);

    assert_eq!(out.len(), 0);
}

#[test]
fn test_handle_invoke_result_ready() {
    let mut coord = LockFreeCoordinator::new(32);
    let idx = MailboxIndex::new(1, 0);

    coord.handle_invoke_result(idx, InvokeResult::Completed { ready_hint: true });

    let mut out = Vec::new();
    coord.drain_ready_cycle(10, &mut out);

    assert_eq!(out.len(), 1);
    assert_eq!(out[0], idx);
}

#[test]
fn test_handle_invoke_result_not_ready() {
    let mut coord = LockFreeCoordinator::new(32);
    let idx = MailboxIndex::new(1, 0);

    coord.register_ready(idx);
    coord.handle_invoke_result(idx, InvokeResult::Completed { ready_hint: false });

    let mut out = Vec::new();
    coord.drain_ready_cycle(10, &mut out);

    assert_eq!(out.len(), 0);
}

#[test]
fn test_signal_notification() {
    let mut coord = LockFreeCoordinator::new(32);
    let idx = MailboxIndex::new(1, 0);

    coord.register_ready(idx);

    assert!(coord.poll_wait_signal());
    assert!(!coord.poll_wait_signal());
}

// Further scenarios of the coordinators.

#[test]
fn lock_free_v2_behaves_like_default_v2() {
    let mut a = LockFreeCoordinatorV2::new(16);
    let mut b = DefaultReadyQueueCoordinatorV2::new(16);
    for (c, i) in [(1u32, 0u32), (2, 0), (1, 0), (3, 1)] {
        a.register_ready(MailboxIndex::new(c, i));
        b.register_ready(MailboxIndex::new(c, i));
    }
    a.unregister(MailboxIndex::new(2, 0));
    b.unregister(MailboxIndex::new(2, 0));
    let mut out_a = Vec::new();
    let mut out_b = Vec::new();
    a.drain_ready_cycle(10, &mut out_a);
    b.drain_ready_cycle(10, &mut out_b);
    assert_eq!(out_a, vec![MailboxIndex::new(1, 0), MailboxIndex::new(3, 1)]);
    assert_eq!(out_a, out_b);
    assert_eq!(a.throughput_hint(), 16);
}

#[test]
fn stale_entry_counts_against_the_batch() {
    let mut coord = DefaultReadyQueueCoordinator::new(8);
    let a = MailboxIndex::new(1, 0);
    let b = MailboxIndex::new(2, 0);
    coord.register_ready(a);
    coord.register_ready(b);
    coord.unregister(a);
    let mut out = vec![MailboxIndex::new(9, 9)];
    // The first pop meets the stale entry of `a`; it is skipped but counts.
    coord.drain_ready_cycle(1, &mut out);
    assert!(out.is_empty());
    coord.drain_ready_cycle(1, &mut out);
    assert_eq!(out, vec![b]);
}

#[test]
fn reregistration_after_unregister_drains_once() {
    let mut coord = DefaultReadyQueueCoordinatorV2::new(8);
    let a = MailboxIndex::new(4, 2);
    coord.register_ready(a);
    coord.unregister(a);
    coord.register_ready(a);
    let mut out = Vec::new();
    coord.drain_ready_cycle(10, &mut out);
    assert_eq!(out, vec![a]);
    coord.drain_ready_cycle(10, &mut out);
    assert!(out.is_empty());
}

#[test]
fn signal_raised_only_by_new_registrations() {
    let mut coord = AdaptiveCoordinator::new(8, 1);
    assert!(!coord.poll_wait_signal());
    let a = MailboxIndex::new(1, 1);
    coord.register_ready(a);
    assert!(coord.poll_wait_signal());
    coord.register_ready(a);
    assert!(!coord.poll_wait_signal());
}

#[test]
fn failure_outcomes_unregister() {
    let mut coord = LockFreeCoordinatorV2::new(8);
    let a = MailboxIndex::new(1, 0);
    let b = MailboxIndex::new(2, 0);
    coord.register_ready(a);
    coord.register_ready(b);
    coord.handle_invoke_result(a, InvokeResult::Failed { error: "boom".to_string(), retry_after: None });
    coord.handle_invoke_result(
        b,
        InvokeResult::Failed { error: "later".to_string(), retry_after: Some(Delay::from_millis(5)) },
    );
    let mut out = Vec::new();
    coord.drain_ready_cycle(10, &mut out);
    assert!(out.is_empty());
}

#[test]
fn yielded_outcome_keeps_single_entry() {
    let mut coord = DefaultReadyQueueCoordinator::new(8);
    let a = MailboxIndex::new(7, 0);
    coord.register_ready(a);
    coord.handle_invoke_result(a, InvokeResult::Yielded);
    let mut out = Vec::new();
    coord.drain_ready_cycle(10, &mut out);
    assert_eq!(out, vec![a]);
}

#[test]
fn distinct_generations_are_distinct_mailboxes() {
    let mut coord = DefaultReadyQueueCoordinatorV2::new(8);
    coord.register_ready(MailboxIndex::new(1, 0));
    coord.register_ready(MailboxIndex::new(1, 1));
    coord.register_ready(MailboxIndex::new(u32::MAX, u32::MAX));
    let mut out = Vec::new();
    coord.drain_ready_cycle(10, &mut out);
    assert_eq!(out, vec![MailboxIndex::new(1, 0), MailboxIndex::new(1, 1), MailboxIndex::new(u32::MAX, u32::MAX)]);
}

#[test]
fn unregister_of_absent_mailbox_changes_nothing() {
    let mut coord = DefaultReadyQueueCoordinatorV2::new(8);
    let a = MailboxIndex::new(1, 0);
    coord.register_ready(a);
    coord.unregister(MailboxIndex::new(2, 0));
    let mut out = Vec::new();
    coord.drain_ready_cycle(10, &mut out);
    assert_eq!(out, vec![a]);
}

#[test]
fn consecutive_drains_are_disjoint() {
    let mut coord = LockFreeCoordinator::new(8);
    for slot in 0..6 {
        coord.register_ready(MailboxIndex::new(slot, 0));
    }
    let mut first = Vec::new();
    let mut second = Vec::new();
    coord.drain_ready_cycle(4, &mut first);
    coord.drain_ready_cycle(4, &mut second);
    assert_eq!(first.len(), 4);
    assert_eq!(second, vec![MailboxIndex::new(4, 0), MailboxIndex::new(5, 0)]);
    assert!(first.iter().all(|i| !second.contains(i)));
}

#[test]
fn failure_with_retry_delay_is_registered_again_when_due() {
    let mut coord = DefaultReadyQueueCoordinatorV2::new(8);
    let b = MailboxIndex::new(2, 0);
    coord.register_ready(b);
    coord.handle_invoke_result(
        b,
        InvokeResult::Failed { error: "later".to_string(), retry_after: Some(Delay::from_millis(5)) },
    );
    let mut out = Vec::new();
    coord.process_retries(4_999_999);
    coord.drain_ready_cycle(10, &mut out);
    assert!(out.is_empty());
    coord.process_retries(5_000_000);
    coord.drain_ready_cycle(10, &mut out);
    assert_eq!(out, vec![b]);
    coord.process_retries(6_000_000);
    coord.drain_ready_cycle(10, &mut out);
    assert!(out.is_empty());
}

#[test]
fn retry_delay_counts_from_last_clock_reading() {
    let mut coord = LockFreeCoordinator::new(8);
    let a = MailboxIndex::new(3, 1);
    coord.process_retries(100);
    coord.handle_invoke_result(a, InvokeResult::Failed { error: "x".to_string(), retry_after: Some(Delay::from_nanos(50)) });
    let mut out = Vec::new();
    coord.process_retries(149);
    coord.drain_ready_cycle(10, &mut out);
    assert!(out.is_empty());
    coord.process_retries(150);
    coord.drain_ready_cycle(10, &mut out);
    assert_eq!(out, vec![a]);
}

#[test]
fn failure_without_retry_delay_is_never_registered_again() {
    let mut coord = AdaptiveCoordinator::new(8, 1);
    let a = MailboxIndex::new(4, 0);
    coord.register_ready(a);
    coord.handle_invoke_result(a, InvokeResult::Failed { error: "x".to_string(), retry_after: None });
    coord.process_retries(u64::MAX);
    let mut out = Vec::new();
    coord.drain_ready_cycle(10, &mut out);
    assert!(out.is_empty());
}

#[test]
fn lock_free_v2_retries() {
    let mut coord = LockFreeCoordinatorV2::new(8);
    let a = MailboxIndex::new(5, 0);
    coord.handle_invoke_result(a, InvokeResult::Failed { error: "x".to_string(), retry_after: Some(Delay::from_secs(1)) });
    coord.process_retries(1_000_000_000);
    let mut out = Vec::new();
    coord.drain_ready_cycle(10, &mut out);
    assert_eq!(out, vec![a]);
}

#[test]
fn default_v1_retries() {
    let mut coord = DefaultReadyQueueCoordinator::new(8);
    let a = MailboxIndex::new(6, 0);
    coord.handle_invoke_result(a, InvokeResult::Failed { error: "x".to_string(), retry_after: Some(Delay::new(0, 7)) });
    coord.process_retries(7);
    let mut out = Vec::new();
    coord.drain_ready_cycle(10, &mut out);
    assert_eq!(out, vec![a]);
}

fn sample_calls() -> Vec<CoordinatorCall> {
    let a = MailboxIndex::new(1, 0);
    let b = MailboxIndex::new(2, 0);
    vec![
        CoordinatorCall::Register(a),
        CoordinatorCall::Register(b),
        CoordinatorCall::Poll,
        CoordinatorCall::Register(a),
        CoordinatorCall::Drain(1),
        CoordinatorCall::Handle(a, InvokeResult::Yielded),
        CoordinatorCall::Handle(b, InvokeResult::Failed { error: "x".to_string(), retry_after: Some(Delay::from_nanos(5)) }),
        CoordinatorCall::Drain(10),
        CoordinatorCall::Retries(5),
        CoordinatorCall::Poll,
        CoordinatorCall::Unregister(a),
        CoordinatorCall::Drain(10),
        CoordinatorCall::Release,
        CoordinatorCall::Poll,
    ]
}

#[test]
fn adaptive_answers_a_sequence_as_default_v2() {
    let mut adaptive = AdaptiveCoordinator::new(16, 4);
    let mut default = DefaultReadyQueueCoordinatorV2::new(16);
    let on_adaptive = replay_calls(&mut adaptive, sample_calls());
    let on_default = replay_calls(&mut default, sample_calls());
    assert_eq!(on_adaptive, on_default);
    assert_eq!(on_adaptive[4].0, vec![MailboxIndex::new(1, 0)]);
    assert_eq!(on_adaptive[7].0, vec![MailboxIndex::new(1, 0)]);
    assert!(!on_adaptive[13].1);
    assert_eq!(on_adaptive[11].0, vec![MailboxIndex::new(2, 0)]);
    assert!(on_adaptive[2].1);
    assert!(on_adaptive[9].1);
    assert_eq!(adaptive.throughput_hint(), default.throughput_hint());
}

#[test]
fn apply_call_drains_and_polls() {
    let mut coord = LockFreeCoordinatorV2::new(4);
    let a = MailboxIndex::new(9, 9);
    assert_eq!(apply_call(&mut coord, CoordinatorCall::Register(a)), (vec![], false));
    assert_eq!(apply_call(&mut coord, CoordinatorCall::Poll), (vec![], true));
    assert_eq!(apply_call(&mut coord, CoordinatorCall::Drain(3)), (vec![a], false));
}

#[test]
fn release_registers_retries_without_clock() {
    let mut coord = DefaultReadyQueueCoordinator::new(8);
    let a = MailboxIndex::new(1, 1);
    coord.handle_invoke_result(a, InvokeResult::Failed { error: "x".to_string(), retry_after: Some(Delay::from_secs(60)) });
    coord.release_retries();
    let mut out = Vec::new();
    coord.drain_ready_cycle(10, &mut out);
    assert_eq!(out, vec![a]);
    coord.process_retries(u64::MAX);
    coord.drain_ready_cycle(10, &mut out);
    assert!(out.is_empty());
}
