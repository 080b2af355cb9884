use cellex_actor_core_rs::{
    ActorCell, ActorReport, DefaultReadyQueueCoordinator, ImmediateScheduler, InvokeResult, MailboxIndex, MetricsEvent,
    replay_scheduler_calls, ReadyQueueContext, ReadyQueueCoordinator, ReadyQueueSchedulerCore, SchedulerAnswer,
    SchedulerCall, ResumeCondition, SignalKey, SuspendReason,
};
use std::cell::RefCell;
use cellex_actor_core_rs::Delay;

type Core = ReadyQueueSchedulerCore<DefaultReadyQueueCoordinator, u32>;

fn refuse(e: u32) -> Result<(), u32> {
    Err(e)
}

type Fail = &'static str;

/// A runtime that reports `r`, once.
fn one(r: ActorReport<u32>) -> impl Fn(usize) -> Result<ActorReport<u32>, Fail> {
    let cell = RefCell::new(Some(r));
    move |_i: usize| Ok(cell.borrow_mut().take().expect("one report"))
}

/// A runtime that reports `reports[i]` for actor `i`, once each.
fn each(reports: Vec<ActorReport<u32>>) -> impl Fn(usize) -> Result<ActorReport<u32>, Fail> {
    let cells = RefCell::new(reports.into_iter().map(Some).collect::<Vec<_>>());
    move |i: usize| Ok(cells.borrow_mut()[i].take().expect("one report per actor"))
}

fn report(processed: usize, result: Option<InvokeResult>, has_pending: bool, stopped: bool) -> ActorReport<u32> {
    ActorReport { processed, result, has_pending, suspended: false, stopped, new_children: Vec::new(), escalations: Vec::new() }
}

#[test]
fn spawn_counts_and_records() {
    let mut core = Core::new();
    core.set_metrics_sink(Some(Vec::new()));
    assert_eq!(core.spawn_actor(ActorCell::new()), 0);
    assert_eq!(core.spawn_actor(ActorCell::new()), 1);
    assert_eq!(core.actor_count(), 2);
    assert_eq!(core.take_metrics_events(), vec![MetricsEvent::ActorRegistered, MetricsEvent::ActorRegistered]);
    assert!(core.take_metrics_events().is_empty());
}

#[test]
fn out_of_range_report_is_ignored() {
    let mut core = Core::new();
    core.spawn_actor(ActorCell::new());
    assert!(!core.process_actor_pending(5, Some(0), one(report(3, None, false, false)), refuse).unwrap());
    assert_eq!(core.actor_count(), 1);
}

#[test]
fn completion_with_pending_messages_reregisters() {
    let mut core = Core::new();
    core.set_ready_queue_coordinator(Some(DefaultReadyQueueCoordinator::new(8)));
    core.set_metrics_sink(Some(Vec::new()));
    core.spawn_actor(ActorCell::new());
    assert!(core.process_actor_pending(0, Some(0), one(report(2, None, true, false)), refuse).unwrap());
    assert!(core.actor_has_pending(0));
    assert_eq!(
        core.take_metrics_events(),
        vec![MetricsEvent::ActorRegistered, MetricsEvent::MailboxDequeued, MetricsEvent::MailboxDequeued]
    );
    let mut coord = core.take_ready_queue_coordinator().unwrap();
    let mut out = Vec::new();
    coord.drain_ready_cycle(10, &mut out);
    assert_eq!(out, vec![MailboxIndex::new(0, 0)]);
}

#[test]
fn stopped_actor_is_pruned() {
    let mut core = Core::new();
    core.set_metrics_sink(Some(Vec::new()));
    core.spawn_actor(ActorCell::new());
    core.spawn_actor(ActorCell::new());
    core.take_metrics_events();
    assert!(core.process_actor_pending(0, Some(0), one(report(1, None, false, true)), refuse).unwrap());
    assert_eq!(core.actor_count(), 1);
    assert_eq!(core.take_metrics_events(), vec![MetricsEvent::MailboxDequeued, MetricsEvent::ActorDeregistered]);
}

#[test]
fn nothing_processed_is_no_progress() {
    let mut core = Core::new();
    core.spawn_actor(ActorCell::new());
    assert!(!core.process_actor_pending(0, Some(0), one(report(0, None, false, false)), refuse).unwrap());
    assert!(!core.drain_ready(Some(0), each(vec![report(0, None, false, false)]), refuse).unwrap());
}

#[test]
fn new_children_are_registered() {
    let mut core = Core::new();
    core.spawn_actor(ActorCell::new());
    let mut r = report(1, None, false, false);
    r.new_children = vec![ActorCell::new(), ActorCell::new()];
    assert!(core.drain_ready(None, each(vec![r]), refuse).unwrap());
    assert_eq!(core.actor_count(), 3);
}

#[test]
fn signal_resumes_suspended_actor() {
    let mut core = Core::new();
    core.set_ready_queue_coordinator(Some(DefaultReadyQueueCoordinator::new(8)));
    core.spawn_actor(ActorCell::new());
    let suspend = InvokeResult::Suspended {
        reason: SuspendReason::AwaitExternal,
        resume_on: ResumeCondition::ExternalSignal(SignalKey(11)),
    };
    let mut r = report(1, Some(suspend), true, false);
    r.suspended = true;
    core.process_actor_pending(0, Some(0), one(r), refuse).unwrap();
    assert!(core.actor_is_suspended(0));
    assert_eq!(core.take_resume_requests(0), 0);
    assert_eq!(core.notify_resume_signal(SignalKey(12)), None);
    assert_eq!(core.notify_resume_signal(SignalKey(11)), Some(0));
    assert_eq!(core.take_resume_requests(0), 1);
    assert_eq!(core.take_resume_requests(0), 0);
    let mut coord = core.take_ready_queue_coordinator().unwrap();
    let mut out = Vec::new();
    coord.drain_ready_cycle(10, &mut out);
    assert_eq!(out, vec![MailboxIndex::new(0, 0)]);
}

#[test]
fn resume_condition_after_triggers_on_deadline() {
    let mut core = Core::new();
    core.spawn_actor(ActorCell::new());
    let suspend = InvokeResult::Suspended {
        reason: SuspendReason::Backpressure,
        resume_on: ResumeCondition::After(Delay::from_nanos(10)),
    };
    core.process_actor_pending(0, Some(0), one(report(1, Some(suspend), false, false)), refuse).unwrap();
    core.drain_ready(Some(5), each(vec![report(0, None, false, false)]), refuse).unwrap();
    assert_eq!(core.take_resume_requests(0), 0);
    core.drain_ready(Some(15), each(vec![report(0, None, false, false)]), refuse).unwrap();
    assert_eq!(core.take_resume_requests(0), 1);
}

#[test]
fn capacity_suspension_resumes_and_unregisters() {
    let mut core = Core::new();
    core.set_ready_queue_coordinator(Some(DefaultReadyQueueCoordinator::new(8)));
    core.spawn_actor(ActorCell::new());
    let suspend = InvokeResult::Suspended {
        reason: SuspendReason::Backpressure,
        resume_on: ResumeCondition::WhenCapacityAvailable,
    };
    core.process_actor_pending(0, None, one(report(1, Some(suspend), false, false)), refuse).unwrap();
    assert_eq!(core.take_resume_requests(0), 1);
    // The resume registers the mailbox, the suspension outcome then unregisters it.
    let mut coord = core.take_ready_queue_coordinator().unwrap();
    let mut out = Vec::new();
    coord.drain_ready_cycle(10, &mut out);
    assert!(out.is_empty());
}

#[test]
fn yielded_actor_is_rescheduled() {
    let mut core = Core::new();
    core.set_ready_queue_coordinator(Some(DefaultReadyQueueCoordinator::new(8)));
    for _ in 0..3 {
        core.spawn_actor(ActorCell::new());
    }
    assert!(core.drain_ready(None, each(vec![report(0, None, false, false), report(0, None, false, false), report(1, Some(InvokeResult::Yielded), true, false)]), refuse).unwrap());
    let mut coord = core.take_ready_queue_coordinator().unwrap();
    let mut out = Vec::new();
    coord.drain_ready_cycle(10, &mut out);
    assert_eq!(out, vec![MailboxIndex::new(2, 0)]);
}

#[test]
fn immediate_scheduler_delegates() {
    let mut s: ImmediateScheduler<DefaultReadyQueueCoordinator, u32> = ImmediateScheduler::new();
    s.set_metrics_sink(None);
    assert_eq!(s.spawn_actor(ActorCell::new()), 0);
    assert_eq!(s.actor_count(), 1);
    assert!(s.drain_ready(None, each(vec![report(1, None, false, true)]), refuse).unwrap());
    assert_eq!(s.actor_count(), 0);
}

#[test]
fn actor_accessors() {
    let mut core = Core::new();
    assert!(core.actor(0).is_none());
    assert!(!core.actor_has_pending(0));
    assert!(!core.actor_is_suspended(0));
    core.spawn_actor(ActorCell { has_pending: true, suspended: true, stopped: false, pending_resumes: 0 });
    let cell = core.actor(0).unwrap();
    assert!(cell.has_pending_messages() && cell.is_suspended() && !cell.is_stopped());
    core.dispatch_all(None, each(vec![report(0, None, false, false)]), refuse).unwrap();
    assert!(!core.actor_has_pending(0));
}

fn accept_even(e: u32) -> Result<(), u32> {
    if e % 2 == 0 {
        Ok(())
    } else {
        Err(e)
    }
}

fn with_escalations(escalations: Vec<u32>) -> ActorReport<u32> {
    let mut r = report(0, None, false, false);
    r.escalations = escalations;
    r
}

#[test]
fn refused_escalations_stay_waiting_in_order() {
    let mut core = Core::new();
    core.spawn_actor(ActorCell::new());
    assert!(!core.drain_ready(None, each(vec![with_escalations(vec![1, 2, 3])]), refuse).unwrap());
    assert_eq!(core.take_escalations(), vec![1, 2, 3]);
    assert!(core.take_escalations().is_empty());
}

#[test]
fn handled_escalation_counts_as_progress() {
    let mut core = Core::new();
    core.spawn_actor(ActorCell::new());
    assert!(core.drain_ready(None, each(vec![with_escalations(vec![2, 3, 4])]), accept_even).unwrap());
    assert_eq!(core.take_escalations(), vec![3]);
}

#[test]
fn waiting_escalations_are_retried_next_cycle() {
    let mut core = Core::new();
    core.spawn_actor(ActorCell::new());
    assert!(!core.process_actor_pending(0, None, one(with_escalations(vec![7])), refuse).unwrap());
    assert!(core.process_actor_pending(0, None, one(with_escalations(vec![8])), |_e: u32| Ok(())).unwrap());
    assert!(core.take_escalations().is_empty());
}

#[test]
fn escalations_of_unknown_actor_are_dropped() {
    let mut core = Core::new();
    core.spawn_actor(ActorCell::new());
    assert!(!core.process_actor_pending(3, None, one(with_escalations(vec![9])), accept_even).unwrap());
    assert!(core.take_escalations().is_empty());
}

#[test]
fn immediate_scheduler_buffers_escalations() {
    let mut s: ImmediateScheduler<DefaultReadyQueueCoordinator, u32> = ImmediateScheduler::new();
    s.spawn_actor(ActorCell::new());
    assert!(s.drain_ready(None, each(vec![with_escalations(vec![4, 5])]), accept_even).unwrap());
    assert_eq!(s.take_escalations(), vec![5]);
}

#[test]
fn actor_mut_changes_the_cell_in_place() {
    let mut core = Core::new();
    assert!(core.actor_mut(0).is_none());
    core.spawn_actor(ActorCell::new());
    core.actor_mut(0).unwrap().has_pending = true;
    assert!(core.actor_has_pending(0));
    assert_eq!(core.actor_count(), 1);
}

#[test]
fn failing_runtime_stops_the_cycle() {
    let mut core = Core::new();
    core.set_metrics_sink(Some(Vec::new()));
    core.spawn_actor(ActorCell::new());
    core.spawn_actor(ActorCell::new());
    core.take_metrics_events();
    let run = |i: usize| -> Result<ActorReport<u32>, Fail> {
        if i == 0 {
            Ok(report(2, None, false, true))
        } else {
            Err("mailbox closed")
        }
    };
    assert_eq!(core.drain_ready(None, run, refuse), Err("mailbox closed"));
    // The first report stays applied; the cycle did not end, so nothing was pruned.
    assert_eq!(core.actor_count(), 2);
    assert!(core.actor(0).unwrap().is_stopped());
    assert_eq!(core.take_metrics_events(), vec![MetricsEvent::MailboxDequeued, MetricsEvent::MailboxDequeued]);
    assert_eq!(core.dispatch_all(None, run, refuse), Err("mailbox closed"));
}

#[test]
fn failing_runtime_leaves_the_actor_unchanged() {
    let mut core = Core::new();
    core.spawn_actor(ActorCell { has_pending: true, suspended: false, stopped: false, pending_resumes: 0 });
    let fail = |_i: usize| -> Result<ActorReport<u32>, Fail> { Err("boom") };
    assert_eq!(core.process_actor_pending(0, None, fail, refuse), Err("boom"));
    assert!(core.actor_has_pending(0));
    assert_eq!(core.process_actor_pending(1, None, fail, refuse), Ok(false));
}

type Ctx = ReadyQueueContext<DefaultReadyQueueCoordinator, u32>;

#[test]
fn ready_actor_is_processed_and_queued_again_while_messages_wait() {
    let mut ctx = Ctx::new(Core::new());
    ctx.spawn_actor(ActorCell::new());
    ctx.spawn_actor(ActorCell::new());
    ctx.enqueue_ready(1);
    let calls = RefCell::new(Vec::new());
    let run = |i: usize| -> Result<ActorReport<u32>, Fail> {
        calls.borrow_mut().push(i);
        Ok(report(1, None, true, false))
    };
    assert_eq!(ctx.process_ready_once(None, run, refuse), Ok(Some(true)));
    assert_eq!(*calls.borrow(), vec![1]);
    assert!(ctx.actor_has_pending(1));
    assert!(!ctx.actor_has_pending(0));
    assert_eq!(ctx.dequeue_ready(), Some(1));
    assert_eq!(ctx.dequeue_ready(), None);
}

#[test]
fn idle_actor_is_not_queued_again() {
    let mut ctx = Ctx::new(Core::new());
    ctx.spawn_actor(ActorCell::new());
    ctx.enqueue_ready(0);
    ctx.enqueue_ready(0);
    assert_eq!(ctx.process_ready_once(None, one(report(1, None, false, false)), refuse), Ok(Some(true)));
    assert_eq!(ctx.dequeue_ready(), None);
}

#[test]
fn without_ready_actor_one_cycle_runs_over_all_actors() {
    let mut ctx = Ctx::new(Core::new());
    ctx.spawn_actor(ActorCell::new());
    ctx.spawn_actor(ActorCell::new());
    let calls = RefCell::new(Vec::new());
    let idle = |i: usize| -> Result<ActorReport<u32>, Fail> {
        calls.borrow_mut().push(i);
        Ok(report(0, None, false, false))
    };
    assert_eq!(ctx.process_ready_once(None, idle, refuse), Ok(None));
    assert_eq!(*calls.borrow(), vec![0, 1]);
    let busy = |_i: usize| -> Result<ActorReport<u32>, Fail> { Ok(report(1, None, false, false)) };
    assert_eq!(ctx.process_ready_once(None, busy, refuse), Ok(Some(true)));
}

#[test]
fn queued_index_without_actor_makes_no_progress() {
    let mut ctx = Ctx::new(Core::new());
    ctx.spawn_actor(ActorCell::new());
    ctx.enqueue_ready(4);
    let calls = RefCell::new(Vec::new());
    let run = |i: usize| -> Result<ActorReport<u32>, Fail> {
        calls.borrow_mut().push(i);
        Ok(report(1, None, false, false))
    };
    assert_eq!(ctx.process_ready_once(None, run, refuse), Ok(Some(false)));
    assert!(calls.borrow().is_empty());
    assert_eq!(ctx.dequeue_ready(), None);
}

#[test]
fn failed_actor_stays_marked_running() {
    let mut ctx = Ctx::new(Core::new());
    ctx.spawn_actor(ActorCell::new());
    ctx.enqueue_ready(0);
    let fail = |_i: usize| -> Result<ActorReport<u32>, Fail> { Err("boom") };
    assert_eq!(ctx.process_ready_once(None, fail, refuse), Err("boom"));
    ctx.enqueue_ready(0);
    assert_eq!(ctx.dequeue_ready(), None);
    ctx.mark_idle(0, true);
    assert_eq!(ctx.dequeue_ready(), Some(0));
}

#[test]
fn context_buffers_escalations() {
    let mut ctx = Ctx::new(Core::new());
    ctx.spawn_actor(ActorCell::new());
    assert_eq!(ctx.actor_count(), 1);
    ctx.enqueue_ready(0);
    assert_eq!(ctx.process_ready_once(None, one(with_escalations(vec![1, 2])), accept_even), Ok(Some(true)));
    assert_eq!(ctx.take_escalations(), vec![1]);
}

#[test]
fn failed_actor_is_retried_by_the_cycle_that_reads_the_clock() {
    let mut core = Core::new();
    core.set_ready_queue_coordinator(Some(DefaultReadyQueueCoordinator::new(8)));
    core.spawn_actor(ActorCell::new());
    let failed = InvokeResult::Failed { error: "boom".to_string(), retry_after: Some(Delay::from_nanos(10)) };
    core.process_actor_pending(0, Some(0), one(report(1, Some(failed), false, false)), refuse).unwrap();
    core.drain_ready(Some(9), each(vec![report(0, None, false, false)]), refuse).unwrap();
    let mut coord = core.take_ready_queue_coordinator().unwrap();
    let mut out = Vec::new();
    coord.drain_ready_cycle(10, &mut out);
    assert!(out.is_empty());
    core.set_ready_queue_coordinator(Some(coord));
    core.drain_ready(Some(10), each(vec![report(0, None, false, false)]), refuse).unwrap();
    let mut coord = core.take_ready_queue_coordinator().unwrap();
    coord.drain_ready_cycle(10, &mut out);
    assert_eq!(out, vec![MailboxIndex::new(0, 0)]);
}

fn scheduler_calls() -> Vec<SchedulerCall> {
    vec![
        SchedulerCall::SetMetricsSink(Some(Vec::new())),
        SchedulerCall::Spawn(ActorCell::new()),
        SchedulerCall::Spawn(ActorCell::new()),
        SchedulerCall::ActorCount,
        SchedulerCall::Drain(None),
        SchedulerCall::TakeEscalations,
        SchedulerCall::ActorCount,
    ]
}

#[test]
fn immediate_scheduler_answers_a_sequence_as_the_core() {
    let run = |i: usize| -> Result<ActorReport<u32>, Fail> {
        let mut r = report(1, None, false, i == 1);
        r.escalations = vec![i as u32 + 1];
        Ok(r)
    };
    let mut core = Core::new();
    let mut immediate: ImmediateScheduler<DefaultReadyQueueCoordinator, u32> = ImmediateScheduler::new();
    let on_core = replay_scheduler_calls(&mut core, scheduler_calls(), run, accept_even);
    let on_immediate = replay_scheduler_calls(&mut immediate, scheduler_calls(), run, accept_even);
    assert_eq!(on_core, on_immediate);
    assert_eq!(
        on_core,
        vec![
            SchedulerAnswer::Done,
            SchedulerAnswer::Index(0),
            SchedulerAnswer::Index(1),
            SchedulerAnswer::Count(2),
            SchedulerAnswer::Drained(Ok(true)),
            SchedulerAnswer::Escalations(vec![1]),
            SchedulerAnswer::Count(1),
        ]
    );
}

#[test]
fn failing_cycle_in_a_sequence() {
    let fail = |_i: usize| -> Result<ActorReport<u32>, Fail> { Err("boom") };
    let mut core = Core::new();
    let answers = replay_scheduler_calls(
        &mut core,
        vec![SchedulerCall::Spawn(ActorCell::new()), SchedulerCall::Drain(Some(0))],
        fail,
        refuse,
    );
    assert_eq!(answers, vec![SchedulerAnswer::Index(0), SchedulerAnswer::Drained(Err("boom"))]);
}

#[test]
fn cycle_without_clock_releases_coordinator_retries() {
    let mut core = Core::new();
    core.set_ready_queue_coordinator(Some(DefaultReadyQueueCoordinator::new(8)));
    core.spawn_actor(ActorCell::new());
    let failed = InvokeResult::Failed { error: "boom".to_string(), retry_after: Some(Delay::from_secs(30)) };
    core.process_actor_pending(0, None, one(report(1, Some(failed), false, false)), refuse).unwrap();
    core.drain_ready(None, each(vec![report(0, None, false, false)]), refuse).unwrap();
    let mut coord = core.take_ready_queue_coordinator().unwrap();
    let mut out = Vec::new();
    coord.drain_ready_cycle(10, &mut out);
    assert_eq!(out, vec![MailboxIndex::new(0, 0)]);
}
