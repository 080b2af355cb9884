use cellex_actor_core_rs::Delay;

use cellex_actor_core_rs::{
    ActorState, InvokeResult, MailboxIndex, MailboxOptions, NonZeroCapacity, OverflowStrategy, ResumeCondition,
    Signal, SignalKey, SuspendReason,
};

#[test]
fn test_mailbox_index_equality() {
    let idx1 = MailboxIndex::new(1, 0);
    let idx2 = MailboxIndex::new(1, 0);
    let idx3 = MailboxIndex::new(1, 1);

    assert_eq!(idx1, idx2);
    assert_ne!(idx1, idx3);
}

#[test]
fn test_invoke_result_variants() {
    let result1 = InvokeResult::Completed { ready_hint: true };
    let result2 = InvokeResult::Yielded;
    let result3 = InvokeResult::Suspended {
        reason: SuspendReason::Backpressure,
        resume_on: ResumeCondition::After(Delay::from_secs(1)),
    };
    let result4 = InvokeResult::Failed { error: "test error".to_string(), retry_after: None };
    let result5 = InvokeResult::Stopped;

    assert!(matches!(result1, InvokeResult::Completed { ready_hint: true }));
    assert!(matches!(result2, InvokeResult::Yielded));
    assert!(matches!(result3, InvokeResult::Suspended { .. }));
    assert!(matches!(result4, InvokeResult::Failed { .. }));
    assert!(matches!(result5, InvokeResult::Stopped));
}

#[test]
fn test_mailbox_options_default() {
    let options = MailboxOptions::default();
    assert_eq!(options.capacity.get(), 1000);
    assert_eq!(options.overflow, OverflowStrategy::DropOldest);
    assert_eq!(options.reserve_for_system, 10);
}

#[test]
fn mailbox_index_fields_and_key() {
    let idx = MailboxIndex::new(3, 7);
    assert_eq!(idx.slot, 3);
    assert_eq!(idx.generation, 7);
    assert_eq!(idx.key(), 3 * 0x1_0000_0000 + 7);
    assert_eq!(MailboxIndex::new(u32::MAX, u32::MAX).key(), u64::MAX);
    assert_ne!(MailboxIndex::new(1, 0).key(), MailboxIndex::new(0, 1).key());
}

#[test]
fn capacity_rejects_zero() {
    assert!(NonZeroCapacity::new(0).is_none());
    assert_eq!(NonZeroCapacity::new(5).map(|c| c.get()), Some(5));
}

#[test]
fn plain_enums_compare() {
    assert_ne!(ActorState::Running, ActorState::Stopped);
    assert_eq!(Signal::PostStop, Signal::PostStop);
    assert_eq!(SignalKey(4), SignalKey(4));
    assert!(SignalKey(1) < SignalKey(2));
    assert_ne!(SuspendReason::RateLimit, SuspendReason::UserDefined);
}

#[test]
fn delay_lengths_in_nanoseconds() {
    assert_eq!(Delay::from_nanos(1_500_000_123).as_nanos(), 1_500_000_123);
    assert_eq!(Delay::from_nanos(1_500_000_123), Delay::new(1, 500_000_123));
    assert_eq!(Delay::from_millis(2_500).as_nanos(), 2_500_000_000);
    assert_eq!(Delay::from_secs(u64::MAX).as_nanos(), u64::MAX as u128 * 1_000_000_000);
    assert_eq!(Delay::new(1, 2_000_000_001), Delay::new(3, 1));
}
