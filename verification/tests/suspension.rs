use cellex_actor_core_rs::Delay;

use cellex_actor_core_rs::{InvokeResult, ResumeCondition, SignalKey, SuspendReason, SuspendRegistry};

fn suspended(resume_on: ResumeCondition) -> InvokeResult {
    InvokeResult::Suspended { reason: SuspendReason::Backpressure, resume_on }
}

#[test]
fn after_condition_resumes_on_deadline() {
    let mut registry = SuspendRegistry::new();
    let resumed = registry.update_suspend_registry(0, &suspended(ResumeCondition::After(Delay::from_nanos(10))), Some(0));
    assert!(!resumed);
    assert!(registry.is_suspended(0));
    assert!(registry.process_deadlines(Some(5)).is_empty());
    assert!(registry.is_suspended(0));
    assert_eq!(registry.process_deadlines(Some(15)), vec![0]);
    assert!(!registry.is_suspended(0));
    assert!(registry.process_deadlines(Some(100)).is_empty());
}

#[test]
fn deadline_reached_exactly_resumes() {
    let mut registry = SuspendRegistry::new();
    registry.update_suspend_registry(3, &suspended(ResumeCondition::After(Delay::from_nanos(10))), Some(20));
    assert!(registry.process_deadlines(Some(29)).is_empty());
    assert_eq!(registry.process_deadlines(Some(30)), vec![3]);
}

#[test]
fn after_condition_without_clock_resumes_immediately() {
    let mut registry = SuspendRegistry::new();
    let resumed = registry.update_suspend_registry(1, &suspended(ResumeCondition::After(Delay::from_secs(1))), None);
    assert!(resumed);
    assert!(!registry.is_suspended(1));
}

#[test]
fn processing_without_clock_does_nothing() {
    let mut registry = SuspendRegistry::new();
    registry.update_suspend_registry(1, &suspended(ResumeCondition::After(Delay::from_nanos(1))), Some(0));
    assert!(registry.process_deadlines(None).is_empty());
    assert!(registry.is_suspended(1));
}

#[test]
fn resume_condition_capacity_resumes_immediately() {
    let mut registry = SuspendRegistry::new();
    let resumed = registry.update_suspend_registry(0, &suspended(ResumeCondition::WhenCapacityAvailable), Some(0));
    assert!(resumed);
    assert!(!registry.is_suspended(0));
}

#[test]
fn external_signal_resumes_actor() {
    let mut registry = SuspendRegistry::new();
    let resumed = registry.update_suspend_registry(2, &suspended(ResumeCondition::ExternalSignal(SignalKey(7))), Some(0));
    assert!(!resumed);
    assert!(registry.is_suspended(2));
    assert_eq!(registry.notify_resume_signal(SignalKey(8)), (None, false));
    assert!(registry.is_suspended(2));
    assert_eq!(registry.notify_resume_signal(SignalKey(7)), (Some(2), true));
    assert!(!registry.is_suspended(2));
    assert_eq!(registry.notify_resume_signal(SignalKey(7)), (None, false));
}

#[test]
fn other_outcome_clears_suspension() {
    let mut registry = SuspendRegistry::new();
    registry.update_suspend_registry(4, &suspended(ResumeCondition::After(Delay::from_nanos(10))), Some(0));
    registry.update_suspend_registry(5, &suspended(ResumeCondition::ExternalSignal(SignalKey(1))), Some(0));
    assert!(!registry.update_suspend_registry(4, &InvokeResult::Completed { ready_hint: false }, Some(0)));
    assert!(!registry.update_suspend_registry(5, &InvokeResult::Stopped, Some(0)));
    assert!(!registry.is_suspended(4));
    assert!(!registry.is_suspended(5));
    assert!(registry.process_deadlines(Some(50)).is_empty());
    assert_eq!(registry.notify_resume_signal(SignalKey(1)), (None, false));
}

#[test]
fn multi_actor_suspend_resume_independent() {
    let mut registry = SuspendRegistry::new();
    registry.update_suspend_registry(0, &suspended(ResumeCondition::After(Delay::from_nanos(10))), Some(0));
    registry.update_suspend_registry(1, &suspended(ResumeCondition::After(Delay::from_nanos(20))), Some(0));
    registry.update_suspend_registry(2, &suspended(ResumeCondition::After(Delay::from_nanos(10))), Some(0));
    registry.update_suspend_registry(3, &suspended(ResumeCondition::ExternalSignal(SignalKey(9))), Some(0));
    assert_eq!(registry.process_deadlines(Some(10)), vec![0, 2]);
    assert!(registry.is_suspended(1));
    assert!(registry.is_suspended(3));
    assert_eq!(registry.process_deadlines(Some(25)), vec![1]);
    assert!(registry.is_suspended(3));
    assert_eq!(registry.notify_resume_signal(SignalKey(9)), (Some(3), true));
}

#[test]
fn deadline_saturates() {
    let mut registry = SuspendRegistry::new();
    registry.update_suspend_registry(0, &suspended(ResumeCondition::After(Delay::from_secs(u64::MAX))), Some(u64::MAX - 5));
    assert!(registry.process_deadlines(Some(u64::MAX - 1)).is_empty());
    assert_eq!(registry.process_deadlines(Some(u64::MAX)), vec![0]);
}

#[test]
fn register_deadline_with_duration() {
    let mut registry = SuspendRegistry::new();
    registry.update_suspend_registry(6, &suspended(ResumeCondition::WhenCapacityAvailable), None);
    // The actor is no longer suspended, so a deadline alone does not resume it.
    assert!(!registry.register_deadline(6, &Delay::from_nanos(3), Some(0)));
    assert!(registry.process_deadlines(Some(3)).is_empty());
    registry.update_suspend_registry(6, &suspended(ResumeCondition::After(Delay::from_nanos(3))), Some(0));
    assert!(registry.resume_actor(6));
    assert!(!registry.resume_actor(6));
    assert!(registry.process_deadlines(Some(3)).is_empty());
}

#[test]
fn clearing_removes_only_the_smallest_signal_key() {
    let mut registry = SuspendRegistry::new();
    registry.update_suspend_registry(1, &suspended(ResumeCondition::ExternalSignal(SignalKey(5))), None);
    registry.update_suspend_registry(1, &suspended(ResumeCondition::ExternalSignal(SignalKey(3))), None);
    registry.clear_suspend_state(1);
    // Key 3 was removed with the state; key 5 still maps to the actor.
    assert_eq!(registry.notify_resume_signal(SignalKey(3)), (None, false));
    assert_eq!(registry.notify_resume_signal(SignalKey(5)), (Some(1), false));
}
