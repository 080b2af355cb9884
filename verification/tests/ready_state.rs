use cellex_actor_core_rs::ReadyQueueState;

#[test]
fn enqueue_only_idle_indices() {
    let mut state = ReadyQueueState::new();
    assert!(state.enqueue_if_idle(3));
    assert!(!state.enqueue_if_idle(3));
    assert!(state.enqueue_if_idle(1));
    assert_eq!(state.pop_front(), Some(3));
    state.mark_running(3);
    assert!(!state.enqueue_if_idle(3));
    state.mark_idle(3, true);
    assert_eq!(state.pop_front(), Some(1));
    assert_eq!(state.pop_front(), Some(3));
    assert_eq!(state.pop_front(), None);
}

#[test]
fn idle_without_pending_is_not_requeued() {
    let mut state = ReadyQueueState::new();
    state.mark_running(0);
    state.mark_idle(0, false);
    assert_eq!(state.pop_front(), None);
    assert!(state.enqueue_if_idle(0));
}

#[test]
fn ensure_capacity_changes_nothing_visible() {
    let mut state = ReadyQueueState::new();
    state.ensure_capacity(16);
    assert!(state.enqueue_if_idle(15));
    assert_eq!(state.pop_front(), Some(15));
}

#[test]
fn dequeue_marks_running() {
    let mut state = ReadyQueueState::new();
    assert_eq!(state.dequeue_ready(), None);
    assert!(state.enqueue_if_idle(2));
    assert_eq!(state.dequeue_ready(), Some(2));
    assert!(!state.enqueue_if_idle(2));
    state.mark_idle(2, false);
    assert!(state.enqueue_if_idle(2));
}

#[test]
fn index_waits_in_the_queue_at_most_once() {
    let mut s = ReadyQueueState::new();
    assert!(s.enqueue_if_idle(3));
    assert!(!s.enqueue_if_idle(3));
    assert!(s.enqueue_if_idle(1));
    assert_eq!(s.pop_front(), Some(3));
    assert!(s.enqueue_if_idle(3));
    assert_eq!(s.pop_front(), Some(1));
    assert_eq!(s.pop_front(), Some(3));
    assert_eq!(s.pop_front(), None);
}
