//! The decision core of the ready-queue scheduler: it keeps the actors'
//! observed status, records invocation outcomes in the suspension
//! bookkeeping, resumes actors, reports outcomes to the ready-queue
//! coordinator, and prunes stopped actors.
//!
//! Running an actor's message handlers is the runtime's work: the core asks
//! the runtime, through a closure, to process an actor's mailbox and gets
//! an [`ActorReport`] back; the core decides what follows. Escalations go to
//! a closure of the runtime in the same way, and clock readings are handed
//! in as arguments.

use vstd::prelude::*;

use crate::coordinator::ReadyQueueCoordinator;
use crate::coordinator_types::InvokeResult;
use crate::mailbox_index::{MailboxIndex, SignalKey};
use crate::ready_model::ReadyQueueModel;
use crate::suspend_registry::{SuspendModel, SuspendRegistry};

verus! {

/// Metrics events recorded by the scheduler.
#[derive(Clone, Copy, Debug, PartialEq, Eq, Structural)]
pub enum MetricsEvent {
    /// An actor was registered with the scheduler.
    ActorRegistered,
    /// An actor was removed from the scheduler.
    ActorDeregistered,
    /// A message was taken from a mailbox.
    MailboxDequeued,
}

/// What the scheduler knows of an actor: whether messages are pending,
/// whether it is suspended or stopped, and how many `Resume` system messages
/// the scheduler has asked the runtime to deliver to it.
#[derive(Clone, Copy, Debug, PartialEq, Eq, Structural)]
pub struct ActorCell {
    /// Messages wait in the actor's mailbox.
    pub has_pending: bool,
    /// The actor is suspended.
    pub suspended: bool,
    /// The actor has stopped.
    pub stopped: bool,
    /// `Resume` system messages still to be delivered to the actor.
    pub pending_resumes: u64,
}

impl ActorCell {
    /// An idle, running actor.
    pub fn new() -> (cell: Self)
        ensures
            cell == (ActorCell { has_pending: false, suspended: false, stopped: false, pending_resumes: 0 }),
    {
        ActorCell { has_pending: false, suspended: false, stopped: false, pending_resumes: 0 }
    }

    /// Whether messages wait in the actor's mailbox.
    pub fn has_pending_messages(&self) -> (r: bool)
        ensures
            r == self.has_pending,
    {
        self.has_pending
    }

    /// Whether the actor is suspended.
    pub fn is_suspended(&self) -> (r: bool)
        ensures
            r == self.suspended,
    {
        self.suspended
    }

    /// Whether the actor has stopped.
    pub fn is_stopped(&self) -> (r: bool)
        ensures
            r == self.stopped,
    {
        self.stopped
    }

    /// The cell with one more `Resume` message to deliver (the count
    /// saturates).
    pub open spec fn with_resume(self) -> Self {
        ActorCell {
            pending_resumes: if self.pending_resumes == u64::MAX {
                u64::MAX
            } else {
                (self.pending_resumes + 1) as u64
            },
            ..self
        }
    }

    /// Asks for a `Resume` system message to be delivered to the actor.
    pub fn enqueue_resume(&mut self)
        ensures
            *final(self) == old(self).with_resume(),
    {
        self.pending_resumes = self.pending_resumes.saturating_add(1);
    }

    /// Returns the number of `Resume` messages to deliver and resets it.
    pub fn take_resume_requests(&mut self) -> (n: u64)
        ensures
            n == old(self).pending_resumes,
            *final(self) == (ActorCell { pending_resumes: 0, ..*old(self) }),
    {
        let n = self.pending_resumes;
        self.pending_resumes = 0;
        n
    }
}

/// What the runtime reports after processing an actor's pending messages;
/// `E` is the failure information an actor escalates.
pub struct ActorReport<E> {
    /// Number of messages processed.
    pub processed: usize,
    /// The invocation outcome the actor reported, if any.
    pub result: Option<InvokeResult>,
    /// Messages still wait in the mailbox.
    pub has_pending: bool,
    /// The actor is suspended.
    pub suspended: bool,
    /// The actor has stopped.
    pub stopped: bool,
    /// Actors spawned while processing.
    pub new_children: Vec<ActorCell>,
    /// Failures escalated while processing, in order.
    pub escalations: Vec<E>,
}

/// The mailbox slot of actor `index`: the index, or `u32::MAX` when it does
/// not fit.
pub open spec fn mailbox_of(index: usize) -> MailboxIndex {
    MailboxIndex { slot: if index <= u32::MAX { index as u32 } else { u32::MAX }, generation: 0 }
}

fn mailbox_index_of(index: usize) -> (m: MailboxIndex)
    ensures
        m == mailbox_of(index),
{
    let slot: u32 = if index <= 0xffff_ffffusize {
        index as u32
    } else {
        u32::MAX
    };
    MailboxIndex::new(slot, 0)
}

/// The outcome reported to the coordinator: the actor's own outcome if it
/// gave one; none when nothing was processed; otherwise `Stopped` for a
/// stopped actor and `Completed` with the pending flag as ready hint.
pub open spec fn compose_result(result: Option<InvokeResult>, processed: nat, cell: ActorCell) -> Option<
    InvokeResult,
> {
    match result {
        Some(r) => Some(r),
        None => if processed == 0 {
            None
        } else if cell.stopped {
            Some(InvokeResult::Stopped)
        } else {
            Some(InvokeResult::Completed { ready_hint: cell.has_pending })
        },
    }
}

/// The cells of `s` that have not stopped, in order.
pub open spec fn running_cells(s: Seq<ActorCell>) -> Seq<ActorCell>
    decreases s.len(),
{
    if s.len() == 0 {
        s
    } else {
        let rest = running_cells(s.drop_last());
        if s.last().stopped {
            rest
        } else {
            rest.push(s.last())
        }
    }
}

/// The new children of all reports, in order.
pub open spec fn all_children<E>(reports: Seq<ActorReport<E>>) -> Seq<ActorCell>
    decreases reports.len(),
{
    if reports.len() == 0 {
        Seq::empty()
    } else {
        all_children(reports.drop_last()) + reports.last().new_children@
    }
}

/// The escalations of all reports, in order.
pub open spec fn all_escalations<E>(reports: Seq<ActorReport<E>>) -> Seq<E>
    decreases reports.len(),
{
    if reports.len() == 0 {
        Seq::empty()
    } else {
        all_escalations(reports.drop_last()) + reports.last().escalations@
    }
}

/// The escalations handed back unhandled, in order.
pub open spec fn refused<E>(verdicts: Seq<Result<(), E>>) -> Seq<E>
    decreases verdicts.len(),
{
    if verdicts.len() == 0 {
        Seq::empty()
    } else {
        let rest = refused(verdicts.drop_last());
        match verdicts.last() {
            Ok(_) => rest,
            Err(e) => rest.push(e),
        }
    }
}

/// Whether some escalation was handled.
pub open spec fn any_handled<E>(verdicts: Seq<Result<(), E>>) -> bool {
    exists|k: int| 0 <= k < verdicts.len() && verdicts[k] is Ok
}

/// Whether `verdicts` are answers that `escalate` may give to `pending`,
/// one for each escalation, in order.
pub open spec fn answers<E, F: Fn(E) -> Result<(), E>>(escalate: F, pending: Seq<E>, verdicts: Seq<Result<(), E>>) -> bool {
    &&& verdicts.len() == pending.len()
    &&& forall|k: int| 0 <= k < pending.len() ==> escalate.ensures((pending[k],), #[trigger] verdicts[k])
}

/// `n` copies of `e`.
pub open spec fn repeated(e: MetricsEvent, n: nat) -> Seq<MetricsEvent> {
    Seq::new(n, |_i: int| e)
}

/// Whether `reports` are reports that `run` may give for the actors
/// `0..count`, one for each actor, in order.
pub open spec fn reports_of<E, Q, R: Fn(usize) -> Result<ActorReport<E>, Q>>(
    run: R,
    count: nat,
    reports: Seq<ActorReport<E>>,
) -> bool {
    &&& reports.len() == count
    &&& forall|k: int| 0 <= k < count ==> run.ensures((k as usize,), Ok::<ActorReport<E>, Q>(#[trigger] reports[k]))
}

/// Whether `post` and `progress` are what a cycle from `m` gives, for
/// reports that `run` may give and answers that `escalate` may give.
pub open spec fn drained<E, Q, R: Fn(usize) -> Result<ActorReport<E>, Q>, F: Fn(E) -> Result<(), E>>(
    run: R,
    escalate: F,
    m: CoreModel<E>,
    now: Option<u64>,
    post: CoreModel<E>,
    progress: bool,
) -> bool {
    exists|reports: Seq<ActorReport<E>>, verdicts: Seq<Result<(), E>>|
        #![trigger m.drain_ready(now, reports, verdicts)]
        {
            &&& reports_of(run, m.actors.len(), reports)
            &&& answers(escalate, m.escalations + all_escalations(reports), verdicts)
            &&& (post, progress) == m.drain_ready(now, reports, verdicts)
        }
}

/// Whether a cycle from `m` may stop with `post` when `run` fails with `q`:
/// the due deadlines and the reports of the actors before the failing one
/// are applied.
pub open spec fn drain_failed<E, Q, R: Fn(usize) -> Result<ActorReport<E>, Q>>(
    run: R,
    m: CoreModel<E>,
    now: Option<u64>,
    post: CoreModel<E>,
    q: Q,
) -> bool {
    exists|reports: Seq<ActorReport<E>>|
        #![trigger m.process_deadlines(now).apply_reports(reports, now)]
        {
            &&& reports.len() < m.actors.len()
            &&& reports_of(run, reports.len(), reports)
            &&& run.ensures((reports.len() as usize,), Err::<ActorReport<E>, Q>(q))
            &&& post == m.process_deadlines(now).apply_reports(reports, now)
        }
}

/// Whether `post` and `progress` are what processing actor `index` of `m`
/// gives, for a report that `run` may give and answers that `escalate` may
/// give.
pub open spec fn processed_pending<E, Q, R: Fn(usize) -> Result<ActorReport<E>, Q>, F: Fn(E) -> Result<(), E>>(
    run: R,
    escalate: F,
    m: CoreModel<E>,
    index: usize,
    now: Option<u64>,
    post: CoreModel<E>,
    progress: bool,
) -> bool {
    exists|report: ActorReport<E>, verdicts: Seq<Result<(), E>>|
        #![trigger m.process_actor_pending(index, report, now, verdicts)]
        {
            &&& run.ensures((index,), Ok::<ActorReport<E>, Q>(report))
            &&& answers(escalate, m.escalations + report.escalations@, verdicts)
            &&& (post, progress) == m.process_actor_pending(index, report, now, verdicts)
        }
}

/// Abstract state of the scheduler core.
pub struct CoreModel<E> {
    /// The actors, by index.
    pub actors: Seq<ActorCell>,
    /// The suspension bookkeeping.
    pub registry: SuspendModel,
    /// The ready-queue coordinator's state, when one is installed.
    pub coordinator: Option<ReadyQueueModel>,
    /// The installed coordinator's throughput hint.
    pub coordinator_throughput: Option<usize>,
    /// Metrics recorded since the last take, when a sink is installed.
    pub metrics: Option<Seq<MetricsEvent>>,
    /// Escalations waiting to be handled, in order.
    pub escalations: Seq<E>,
}

impl<E> CoreModel<E> {
    /// Records `n` occurrences of `e` when a sink is installed.
    pub open spec fn record(self, e: MetricsEvent, n: nat) -> Self {
        match self.metrics {
            Some(log) => CoreModel { metrics: Some(log + repeated(e, n)), ..self },
            None => self,
        }
    }

    /// Asks for a `Resume` message to actor `index` (when it exists) and
    /// registers its mailbox with the coordinator (when one is installed).
    pub open spec fn resume_effects(self, index: usize) -> Self {
        CoreModel {
            actors: if index < self.actors.len() {
                self.actors.update(index as int, self.actors[index as int].with_resume())
            } else {
                self.actors
            },
            coordinator: match self.coordinator {
                Some(c) => Some(c.register(mailbox_of(index))),
                None => None,
            },
            ..self
        }
    }

    /// Applies [`CoreModel::resume_effects`] to each of `indices` in order.
    pub open spec fn resume_all(self, indices: Seq<usize>) -> Self
        decreases indices.len(),
    {
        if indices.len() == 0 {
            self
        } else {
            self.resume_effects(indices[0]).resume_all(indices.drop_first())
        }
    }

    /// Resumes the actors whose deadlines are due at `now`, then hands the
    /// clock reading to the coordinator, whose retries due at `now` register
    /// their mailboxes again; without a clock reading, all its retries
    /// register their mailboxes at once.
    pub open spec fn process_deadlines(self, now: Option<u64>) -> Self {
        let (registry, resumed) = self.registry.process_deadlines(now);
        let m = CoreModel { registry, ..self }.resume_all(resumed);
        match (now, m.coordinator) {
            (Some(t), Some(c)) => CoreModel { coordinator: Some(c.process_retries(t)), ..m },
            (None, Some(c)) => CoreModel { coordinator: Some(c.release_retries()), ..m },
            _ => m,
        }
    }

    /// Records an invocation outcome of actor `index`: updates the
    /// suspension bookkeeping, resumes the
    /// actor when the bookkeeping says so, then hands the outcome to the
    /// coordinator.
    pub open spec fn handle_invoke_outcome(self, index: usize, result: Option<InvokeResult>, now: Option<u64>) -> Self {
        match result {
            None => self,
            Some(r) => {
                let (registry, resumed) = self.registry.update(index, r, now);
                let m1 = CoreModel { registry, ..self };
                let m2 = if resumed {
                    m1.resume_effects(index)
                } else {
                    m1
                };
                CoreModel {
                    coordinator: match m2.coordinator {
                        Some(c) => Some(c.handle_invoke_result(mailbox_of(index), r)),
                        None => None,
                    },
                    ..m2
                }
            },
        }
    }

    /// Applies a report for the existing actor `index`: stores its status,
    /// handles the composed outcome, and records the dequeued messages.
    pub open spec fn apply_report(self, index: usize, report: ActorReport<E>, now: Option<u64>) -> Self {
        let old_cell = self.actors[index as int];
        let cell = ActorCell {
            has_pending: report.has_pending,
            suspended: report.suspended,
            stopped: report.stopped,
            ..old_cell
        };
        let m1 = CoreModel {
            actors: self.actors.update(index as int, cell),
            escalations: self.escalations + report.escalations@,
            ..self
        };
        let composed = compose_result(report.result, report.processed as nat, cell);
        m1.handle_invoke_outcome(index, composed, now).record(
            MetricsEvent::MailboxDequeued,
            report.processed as nat,
        )
    }

    /// Handles the waiting escalations, given the answer to each: the
    /// refused ones stay, in order; reports whether any was handled.
    pub open spec fn handle_escalations(self, verdicts: Seq<Result<(), E>>) -> (Self, bool) {
        (CoreModel { escalations: refused(verdicts), ..self }, any_handled(verdicts))
    }

    /// Ends a cycle: appends the new children (recording their
    /// registration), handles the waiting escalations with `verdicts`,
    /// removes stopped actors (recording their removal), and reports whether
    /// anything was processed, handled or removed.
    pub open spec fn finish_cycle(self, children: Seq<ActorCell>, processed_any: bool, verdicts: Seq<Result<(), E>>) -> (Self, bool) {
        let m1 = CoreModel { actors: self.actors + children, ..self }.record(
            MetricsEvent::ActorRegistered,
            children.len(),
        );
        let (m2, handled) = m1.handle_escalations(verdicts);
        let kept = running_cells(m2.actors);
        let removed: nat = (m2.actors.len() - kept.len()) as nat;
        let m3 = CoreModel { actors: kept, ..m2 }.record(MetricsEvent::ActorDeregistered, removed);
        (m3, processed_any || handled || removed > 0)
    }

    /// Processes a report for actor `index` and ends the cycle; an index
    /// without actor changes nothing and reports `false`.
    pub open spec fn process_actor_pending(
        self,
        index: usize,
        report: ActorReport<E>,
        now: Option<u64>,
        verdicts: Seq<Result<(), E>>,
    ) -> (Self, bool) {
        if index >= self.actors.len() {
            (self, false)
        } else {
            self.apply_report(index, report, now).finish_cycle(
                report.new_children@,
                report.processed > 0,
                verdicts,
            )
        }
    }

    /// Applies the reports in order, the report at position `k` to actor `k`.
    pub open spec fn apply_reports(self, reports: Seq<ActorReport<E>>, now: Option<u64>) -> Self
        decreases reports.len(),
    {
        if reports.len() == 0 {
            self
        } else {
            let k = (reports.len() - 1) as int;
            self.apply_reports(reports.drop_last(), now).apply_report(k as usize, reports.last(), now)
        }
    }

    /// One cycle over all actors: resumes the actors whose deadlines are due,
    /// applies one report per actor, then ends the cycle with all new
    /// children and the answers to the waiting escalations. Reports whether
    /// anything was processed, handled or removed.
    pub open spec fn drain_ready(
        self,
        now: Option<u64>,
        reports: Seq<ActorReport<E>>,
        verdicts: Seq<Result<(), E>>,
    ) -> (Self, bool) {
        self.process_deadlines(now).apply_reports(reports, now).finish_cycle(
            all_children(reports),
            exists|k: int| 0 <= k < reports.len() && reports[k].processed > 0,
            verdicts,
        )
    }

    /// Consumes the signal `key`; an actor it resumes gets its `Resume` and
    /// is registered again. Returns the actor the signal mapped to.
    pub open spec fn notify_resume_signal(self, key: SignalKey) -> (Self, Option<usize>) {
        let (registry, found, resumed) = self.registry.notify(key.0);
        let m1 = CoreModel { registry, ..self };
        (
            if resumed {
                m1.resume_effects(found.unwrap())
            } else {
                m1
            },
            found,
        )
    }
}

/// Simple scheduler core for actors with priority mailboxes; `E` is the
/// failure information that actors escalate.
pub struct ReadyQueueSchedulerCore<C: ReadyQueueCoordinator, E> {
    actors: Vec<ActorCell>,
    registry: SuspendRegistry,
    ready_coordinator: Option<C>,
    metrics: Option<Vec<MetricsEvent>>,
    escalations: Vec<E>,
}

impl<C: ReadyQueueCoordinator, E> View for ReadyQueueSchedulerCore<C, E> {
    type V = CoreModel<E>;

    closed spec fn view(&self) -> CoreModel<E> {
        CoreModel {
            actors: self.actors@,
            registry: self.registry@,
            coordinator: match self.ready_coordinator {
                Some(c) => Some(c.ready_model()),
                None => None,
            },
            coordinator_throughput: match self.ready_coordinator {
                Some(c) => Some(c.throughput_view()),
                None => None,
            },
            metrics: match self.metrics {
                Some(v) => Some(v@),
                None => None,
            },
            escalations: self.escalations@,
        }
    }
}

impl<C: ReadyQueueCoordinator, E> ReadyQueueSchedulerCore<C, E> {
    /// The installed coordinator, if any, is well formed.
    pub closed spec fn wf(&self) -> bool {
        self.ready_coordinator matches Some(c) ==> c.well_formed()
    }

    /// The suspension bookkeeping of a core is finite and well formed.
    pub proof fn lemma_registry_finite(&self)
        ensures
            self@.registry.wf(),
    {
        crate::suspend_laws::lemma_registry_wf(&self.registry);
    }

    /// A scheduler core without actors, coordinator or metrics sink.
    pub fn new() -> (core: Self)
        ensures
            core.wf(),
            core@ == (CoreModel {
                actors: Seq::empty(),
                registry: SuspendModel::empty(),
                coordinator: None,
                coordinator_throughput: None,
                metrics: None,
                escalations: Seq::<E>::empty(),
            }),
    {
        ReadyQueueSchedulerCore {
            actors: Vec::new(),
            registry: SuspendRegistry::new(),
            ready_coordinator: None,
            metrics: None,
            escalations: Vec::new(),
        }
    }

    /// Number of actors.
    pub fn actor_count(&self) -> (n: usize)
        ensures
            n == self@.actors.len(),
    {
        self.actors.len()
    }

    /// Whether actor `index` exists and has pending messages.
    pub fn actor_has_pending(&self, index: usize) -> (r: bool)
        ensures
            r == (index < self@.actors.len() && self@.actors[index as int].has_pending),
    {
        if index < self.actors.len() {
            self.actors[index].has_pending_messages()
        } else {
            false
        }
    }

    /// Whether actor `index` exists and is suspended.
    pub fn actor_is_suspended(&self, index: usize) -> (r: bool)
        ensures
            r == (index < self@.actors.len() && self@.actors[index as int].suspended),
    {
        if index < self.actors.len() {
            self.actors[index].is_suspended()
        } else {
            false
        }
    }

    /// Installs or removes the ready-queue coordinator.
    pub fn set_ready_queue_coordinator(&mut self, coordinator: Option<C>)
        requires
            coordinator matches Some(c) ==> c.well_formed(),
        ensures
            final(self).wf(),
            final(self)@ == (CoreModel {
                coordinator: match coordinator {
                    Some(c) => Some(c.ready_model()),
                    None => None,
                },
                coordinator_throughput: match coordinator {
                    Some(c) => Some(c.throughput_view()),
                    None => None,
                },
                ..old(self)@
            }),
    {
        self.ready_coordinator = coordinator;
    }

    /// Installs a metrics sink (a buffer of recorded events) or removes it.
    pub fn set_metrics_sink(&mut self, sink: Option<Vec<MetricsEvent>>)
        requires
            old(self).wf(),
        ensures
            final(self).wf(),
            final(self)@ == (CoreModel {
                metrics: match sink {
                    Some(v) => Some(v@),
                    None => None,
                },
                ..old(self)@
            }),
    {
        self.metrics = sink;
    }

    /// Takes the events recorded since the last take; empty without sink.
    pub fn take_metrics_events(&mut self) -> (events: Vec<MetricsEvent>)
        requires
            old(self).wf(),
        ensures
            final(self).wf(),
            old(self)@.metrics matches Some(log) ==> (events@ == log && final(self)@ == (CoreModel {
                metrics: Some(Seq::empty()),
                ..old(self)@
            })),
            old(self)@.metrics is None ==> (events@ == Seq::<MetricsEvent>::empty() && final(self)@ == old(self)@),
    {
        match self.metrics.take() {
            Some(log) => {
                self.metrics = Some(Vec::new());
                log
            },
            None => Vec::new(),
        }
    }

    /// Registers an actor and records its registration; returns its index.
    pub fn spawn_actor(&mut self, cell: ActorCell) -> (index: usize)
        requires
            old(self).wf(),
        ensures
            final(self).wf(),
            index == old(self)@.actors.len(),
            final(self)@ == (CoreModel { actors: old(self)@.actors.push(cell), ..old(self)@ }).record(
                MetricsEvent::ActorRegistered,
                1,
            ),
    {
        let index = self.actors.len();
        self.actors.push(cell);
        self.record_repeated(MetricsEvent::ActorRegistered, 1);
        index
    }

    /// Records `count` occurrences of `event` when a sink is installed.
    fn record_repeated(&mut self, event: MetricsEvent, count: usize)
        requires
            old(self).wf(),
        ensures
            final(self).wf(),
            final(self)@ == old(self)@.record(event, count as nat),
    {
        let ghost before = self@;
        match self.metrics.take() {
            Some(mut log) => {
                let ghost start = log@;
                let mut i: usize = 0;
                while i < count
                    invariant
                        i <= count,
                        log@ == start + repeated(event, i as nat),
                    decreases count - i,
                {
                    log.push(event);
                    i += 1;
                    assert(log@ =~= start + repeated(event, i as nat));
                }
                self.metrics = Some(log);
            },
            None => {},
        }
        assert(self@ == before.record(event, count as nat));
    }

    /// Asks for a `Resume` message to actor `index` and registers its
    /// mailbox with the coordinator.
    fn resume_effects(&mut self, index: usize)
        requires
            old(self).wf(),
        ensures
            final(self).wf(),
            final(self)@ == old(self)@.resume_effects(index),
            final(self)@.actors.len() == old(self)@.actors.len(),
    {
        let ghost before = self@;
        if index < self.actors.len() {
            let mut cell = self.actors[index];
            cell.enqueue_resume();
            self.actors.set(index, cell);
        }
        let mailbox = mailbox_index_of(index);
        match self.ready_coordinator.take() {
            Some(mut c) => {
                c.register_ready(mailbox);
                self.ready_coordinator = Some(c);
            },
            None => {},
        }
        assert(self@ == before.resume_effects(index));
    }

    /// Applies [`CoreModel::resume_effects`] to each of `indices` in order.
    fn resume_all(&mut self, indices: &Vec<usize>)
        requires
            old(self).wf(),
        ensures
            final(self).wf(),
            final(self)@ == old(self)@.resume_all(indices@),
            final(self)@.actors.len() == old(self)@.actors.len(),
            final(self)@.escalations == old(self)@.escalations,
    {
        let ghost before = self@;
        let mut k: usize = 0;
        assert(indices@.skip(0) =~= indices@);
        while k < indices.len()
            invariant
                k <= indices.len(),
                self.wf(),
                before.resume_all(indices@) == self@.resume_all(indices@.skip(k as int)),
                self@.actors.len() == before.actors.len(),
                self@.escalations == before.escalations,
            decreases indices.len() - k,
        {
            assert(indices@.skip(k as int).drop_first() =~= indices@.skip(k + 1));
            self.resume_effects(indices[k]);
            k += 1;
        }
    }

    /// Resumes the actors whose deadlines are due at `now`.
    pub fn process_deadlines(&mut self, now: Option<u64>)
        requires
            old(self).wf(),
        ensures
            final(self).wf(),
            final(self)@ == old(self)@.process_deadlines(now),
            final(self)@.actors.len() == old(self)@.actors.len(),
            final(self)@.escalations == old(self)@.escalations,
    {
        let ghost before = self@;
        let resumed = self.registry.process_deadlines(now);
        self.resume_all(&resumed);
        match now {
            Some(t) => match self.ready_coordinator.take() {
                Some(mut c) => {
                    c.process_retries(t);
                    self.ready_coordinator = Some(c);
                },
                None => {},
            },
            None => match self.ready_coordinator.take() {
                Some(mut c) => {
                    c.release_retries();
                    self.ready_coordinator = Some(c);
                },
                None => {},
            },
        }
        assert(self@ == before.process_deadlines(now));
    }

    /// Records the outcome of actor `index` in the suspension bookkeeping,
    /// resumes it when the bookkeeping says so, and hands the outcome to
    /// the coordinator.
    fn handle_invoke_outcome(&mut self, index: usize, result: Option<InvokeResult>, now: Option<u64>)
        requires
            old(self).wf(),
        ensures
            final(self).wf(),
            final(self)@ == old(self)@.handle_invoke_outcome(index, result, now),
    {
        let ghost before = self@;
        match result {
            None => {
                assert(self@ == before.handle_invoke_outcome(index, result, now));
            },
            Some(r) => {
                let resumed = self.registry.update_suspend_registry(index, &r, now);
                if resumed {
                    self.resume_effects(index);
                }
                let mailbox = mailbox_index_of(index);
                let ghost r2 = r;
                match self.ready_coordinator.take() {
                    Some(mut c) => {
                        c.handle_invoke_result(mailbox, r);
                        self.ready_coordinator = Some(c);
                    },
                    None => {},
                }
                assert(self@ == before.handle_invoke_outcome(index, Some(r2), now));
            },
        }
    }

    /// Removes the stopped actors; returns how many were removed.
    fn prune_stopped(&mut self) -> (removed: usize)
        requires
            old(self).wf(),
        ensures
            final(self).wf(),
            final(self)@ == (CoreModel { actors: running_cells(old(self)@.actors), ..old(self)@ }),
            removed == old(self)@.actors.len() - running_cells(old(self)@.actors).len(),
    {
        let ghost before = self@;
        let mut kept: Vec<ActorCell> = Vec::new();
        let mut i: usize = 0;
        while i < self.actors.len()
            invariant
                i <= self.actors.len(),
                self@ == before,
                kept@ == running_cells(self.actors@.take(i as int)),
                kept@.len() <= i,
            decreases self.actors.len() - i,
        {
            assert(self.actors@.take(i + 1).drop_last() =~= self.actors@.take(i as int));
            let cell = self.actors[i];
            if !cell.is_stopped() {
                kept.push(cell);
            }
            i += 1;
        }
        assert(self.actors@.take(self.actors.len() as int) =~= self.actors@);
        let removed = self.actors.len() - kept.len();
        self.actors = kept;
        removed
    }

    /// Takes the escalations waiting to be handled, in order.
    pub fn take_escalations(&mut self) -> (taken: Vec<E>)
        requires
            old(self).wf(),
        ensures
            final(self).wf(),
            taken@ == old(self)@.escalations,
            final(self)@ == (CoreModel { escalations: Seq::empty(), ..old(self)@ }),
    {
        let mut taken: Vec<E> = Vec::new();
        std::mem::swap(&mut taken, &mut self.escalations);
        taken
    }

    /// Hands each waiting escalation, in order, to `escalate`; those it
    /// gives back stay waiting, in order. Returns whether any was handled.
    fn handle_escalations<F: Fn(E) -> Result<(), E>>(&mut self, escalate: F) -> (handled: bool)
        requires
            old(self).wf(),
            forall|e: E| escalate.requires((e,)),
        ensures
            final(self).wf(),
            exists|verdicts: Seq<Result<(), E>>|
                answers(escalate, old(self)@.escalations, verdicts) && (final(self)@, handled)
                    == old(self)@.handle_escalations(verdicts),
    {
        let ghost before = self@;
        let ghost all = self.escalations@;
        let mut pending: Vec<E> = Vec::new();
        std::mem::swap(&mut pending, &mut self.escalations);
        let mut stack: Vec<E> = Vec::new();
        while pending.len() > 0
            invariant
                pending@ + stack@.reverse() == all,
            decreases pending.len(),
        {
            let ghost prev_p = pending@;
            let ghost prev_s = stack@;
            let e = pending.pop().unwrap();
            stack.push(e);
            assert(prev_p =~= pending@.push(e));
            assert(stack@.reverse() =~= prev_s.reverse().insert(0, e));
            assert(pending@ + stack@.reverse() =~= prev_p + prev_s.reverse());
        }
        assert(stack@.reverse() =~= all);
        let count = stack.len();
        assert(all.len() == count);
        let mut remaining: Vec<E> = Vec::new();
        let mut handled = false;
        let ghost mut verdicts: Seq<Result<(), E>> = Seq::empty();
        let mut k: usize = 0;
        while stack.len() > 0
            invariant
                self.wf(),
                self@ == (CoreModel { escalations: Seq::<E>::empty(), ..before }),
                forall|e: E| escalate.requires((e,)),
                all.len() <= usize::MAX,
                k + stack.len() == all.len(),
                stack@.reverse() == all.skip(k as int),
                verdicts.len() == k,
                forall|t: int| 0 <= t < k ==> escalate.ensures((all[t],), #[trigger] verdicts[t]),
                remaining@ == refused(verdicts),
                handled == any_handled(verdicts),
            decreases stack.len(),
        {
            let ghost prev_stack = stack@;
            let info = stack.pop().unwrap();
            assert(all.skip(k as int)[0] == prev_stack.reverse()[0]);
            assert(prev_stack.reverse().drop_first() =~= stack@.reverse());
            assert(all.skip(k as int).drop_first() =~= all.skip(k + 1));
            let verdict = escalate(info);
            let ghost v = verdict;
            match verdict {
                Ok(()) => {
                    handled = true;
                },
                Err(e) => {
                    remaining.push(e);
                },
            }
            proof {
                let nv = verdicts.push(v);
                assert(nv.drop_last() =~= verdicts);
                assert(nv[k as int] == v);
                if v is Ok {
                    assert(nv[k as int] is Ok);
                } else {
                    assert forall|t: int| 0 <= t < nv.len() && nv[t] is Ok implies 0 <= t < verdicts.len()
                        && verdicts[t] is Ok by {
                        assert(nv[t] == verdicts[t]);
                    }
                }
                assert forall|t: int| 0 <= t < k + 1 implies escalate.ensures((all[t],), #[trigger] nv[t]) by {
                    if t < k {
                        assert(nv[t] == verdicts[t]);
                    }
                }
                verdicts = nv;
            }
            k += 1;
        }
        self.escalations = remaining;
        assert(answers(escalate, before.escalations, verdicts));
        assert((self@, handled) == before.handle_escalations(verdicts));
        handled
    }

    /// Ends a cycle: appends the new children, hands the waiting
    /// escalations to `escalate`, removes stopped actors, and reports
    /// whether anything was processed, handled or removed.
    fn finish_cycle<F: Fn(E) -> Result<(), E>>(
        &mut self,
        new_children: Vec<ActorCell>,
        processed_any: bool,
        escalate: F,
    ) -> (progress: bool)
        requires
            old(self).wf(),
            forall|e: E| escalate.requires((e,)),
        ensures
            final(self).wf(),
            exists|verdicts: Seq<Result<(), E>>|
                answers(escalate, old(self)@.escalations, verdicts) && (final(self)@, progress)
                    == old(self)@.finish_cycle(new_children@, processed_any, verdicts),
    {
        let ghost before = self@;
        let ghost children_view = new_children@;
        let added = new_children.len();
        let mut children = new_children;
        self.actors.append(&mut children);
        self.record_repeated(MetricsEvent::ActorRegistered, added);
        let ghost m1 = self@;
        assert(m1.escalations == before.escalations);
        let handled = self.handle_escalations(escalate);
        let ghost verdicts = choose|v: Seq<Result<(), E>>|
            answers(escalate, m1.escalations, v) && (self@, handled) == m1.handle_escalations(v);
        let removed = self.prune_stopped();
        self.record_repeated(MetricsEvent::ActorDeregistered, removed);
        let progress = processed_any || handled || removed > 0;
        assert((self@, progress) == before.finish_cycle(children_view, processed_any, verdicts));
        progress
    }

    /// The outcome to report to the coordinator for actor `index` (see
    /// [`compose_result`]).
    fn compose_invoke_result(&self, index: usize, processed: usize, result: Option<InvokeResult>) -> (r: Option<InvokeResult>)
        requires
            index < self@.actors.len(),
        ensures
            r == compose_result(result, processed as nat, self@.actors[index as int]),
    {
        if result.is_some() {
            return result;
        }
        if processed == 0 {
            return None;
        }
        let cell = self.actors[index];
        if cell.is_stopped() {
            Some(InvokeResult::Stopped)
        } else {
            Some(InvokeResult::Completed { ready_hint: cell.has_pending_messages() })
        }
    }

    /// Applies the report of the existing actor `index`: stores its status,
    /// handles the composed outcome and records the dequeued messages.
    /// Returns the report's new children and whether messages were
    /// processed.
    fn apply_report(&mut self, index: usize, report: ActorReport<E>, now: Option<u64>) -> (r: (Vec<ActorCell>, bool))
        requires
            old(self).wf(),
            index < old(self)@.actors.len(),
        ensures
            final(self).wf(),
            final(self)@ == old(self)@.apply_report(index, report, now),
            r.0@ == report.new_children@,
            r.1 == (report.processed > 0),
            final(self)@.actors.len() == old(self)@.actors.len(),
            final(self)@.escalations == old(self)@.escalations + report.escalations@,
    {
        let ghost before = self@;
        let ghost rep = report;
        let ActorReport { processed, result, has_pending, suspended, stopped, new_children, escalations } = report;
        let old_cell = self.actors[index];
        let cell = ActorCell { has_pending, suspended, stopped, ..old_cell };
        self.actors.set(index, cell);
        let mut escalated = escalations;
        self.escalations.append(&mut escalated);
        let ghost m1 = self@;
        let composed = self.compose_invoke_result(index, processed, result);
        self.handle_invoke_outcome(index, composed, now);
        self.record_repeated(MetricsEvent::MailboxDequeued, processed);
        assert(self@ == before.apply_report(index, rep, now));
        (new_children, processed > 0)
    }

    /// Processes actor `index`: `run` processes its pending messages and
    /// reports, the report is applied (its escalations join the waiting
    /// ones) and the cycle ends, handing each waiting escalation to
    /// `escalate`. Returns whether anything was processed, handled or
    /// removed. An index without actor changes nothing and returns
    /// `Ok(false)`; when `run` fails, its error is returned and nothing
    /// changes.
    pub fn process_actor_pending<Q, R: Fn(usize) -> Result<ActorReport<E>, Q>, F: Fn(E) -> Result<(), E>>(
        &mut self,
        index: usize,
        now: Option<u64>,
        run: R,
        escalate: F,
    ) -> (r: Result<bool, Q>)
        requires
            old(self).wf(),
            forall|i: usize| run.requires((i,)),
            forall|e: E| escalate.requires((e,)),
        ensures
            final(self).wf(),
            index >= old(self)@.actors.len() ==> (final(self)@ == old(self)@ && r == Ok::<bool, Q>(false)),
            index < old(self)@.actors.len() ==> match r {
                Ok(progress) => processed_pending(run, escalate, old(self)@, index, now, final(self)@, progress),
                Err(q) => run.ensures((index,), Err::<ActorReport<E>, Q>(q)) && final(self)@ == old(self)@,
            },
    {
        let ghost before = self@;
        if index >= self.actors.len() {
            return Ok(false);
        }
        let outcome = run(index);
        let ghost out = outcome;
        let report = match outcome {
            Ok(report) => report,
            Err(q) => {
                return Err(q);
            },
        };
        let ghost rep = report;
        let (children, processed_any) = self.apply_report(index, report, now);
        let ghost m1 = self@;
        let progress = self.finish_cycle(children, processed_any, escalate);
        proof {
            let verdicts = choose|v: Seq<Result<(), E>>|
                answers(escalate, m1.escalations, v) && (self@, progress) == m1.finish_cycle(rep.new_children@, processed_any, v);
            assert((self@, progress) == before.process_actor_pending(index, rep, now, verdicts));
        }
        Ok(progress)
    }

    /// Consumes the signal `key`: when it maps to an actor, the mapping is
    /// removed and a suspended actor is resumed; returns the actor's index.
    pub fn notify_resume_signal(&mut self, key: SignalKey) -> (found: Option<usize>)
        requires
            old(self).wf(),
        ensures
            final(self).wf(),
            (final(self)@, found) == old(self)@.notify_resume_signal(key),
    {
        let (found, resumed) = self.registry.notify_resume_signal(key);
        if resumed {
            match found {
                Some(index) => self.resume_effects(index),
                None => {},
            }
        }
        found
    }

    /// Processes one cycle: resumes the actors whose deadlines are due at
    /// `now`; then, for each actor in index order, `run` processes its
    /// pending messages and the report is applied (its escalations join the
    /// waiting ones); the cycle ends with all new children, handing each
    /// waiting escalation to `escalate`. Returns whether anything was
    /// processed, handled or removed. When `run` fails for an actor, its
    /// error is returned at once: the deadlines and the reports of the
    /// actors before it stay applied, and the cycle does not end.
    pub fn drain_ready<Q, R: Fn(usize) -> Result<ActorReport<E>, Q>, F: Fn(E) -> Result<(), E>>(
        &mut self,
        now: Option<u64>,
        run: R,
        escalate: F,
    ) -> (r: Result<bool, Q>)
        requires
            old(self).wf(),
            forall|i: usize| run.requires((i,)),
            forall|e: E| escalate.requires((e,)),
        ensures
            final(self).wf(),
            match r {
                Ok(progress) => drained(run, escalate, old(self)@, now, final(self)@, progress),
                Err(q) => drain_failed(run, old(self)@, now, final(self)@, q),
            },
    {
        let ghost before = self@;
        self.process_deadlines(now);
        let ghost start = self@;
        let count = self.actors.len();
        let mut children: Vec<ActorCell> = Vec::new();
        let mut processed_any = false;
        let ghost mut reports: Seq<ActorReport<E>> = Seq::empty();
        assert(before.escalations + all_escalations(reports) =~= before.escalations);
        let mut k: usize = 0;
        while k < count
            invariant
                self.wf(),
                k <= count,
                count == start.actors.len(),
                count == before.actors.len(),
                before == old(self)@,
                start == before.process_deadlines(now),
                forall|i: usize| run.requires((i,)),
                reports.len() == k,
                reports_of(run, k as nat, reports),
                self@ == start.apply_reports(reports, now),
                self@.actors.len() == count,
                self@.escalations == before.escalations + all_escalations(reports),
                children@ == all_children(reports),
                processed_any == exists|t: int| 0 <= t < k && #[trigger] reports[t].processed > 0,
            decreases count - k,
        {
            let ghost prev = self@;
            let outcome = run(k);
            let ghost out = outcome;
            let report = match outcome {
                Ok(report) => report,
                Err(q) => {
                    proof {
                        assert(run.ensures((reports.len() as usize,), Err::<ActorReport<E>, Q>(q)));
                        assert(self@ == before.process_deadlines(now).apply_reports(reports, now));
                    }
                    return Err(q);
                },
            };
            let ghost rep = report;
            let (mut new_children, processed) = self.apply_report(k, report, now);
            children.append(&mut new_children);
            processed_any = processed_any || processed;
            proof {
                let nr = reports.push(rep);
                assert(nr.drop_last() =~= reports);
                assert(nr.last() == rep);
                assert(before.escalations + all_escalations(nr) =~= before.escalations + all_escalations(reports)
                    + rep.escalations@);
                assert forall|t: int| 0 <= t < k + 1 implies run.ensures(
                    (t as usize,),
                    Ok::<ActorReport<E>, Q>(#[trigger] nr[t]),
                ) by {
                    if t < k {
                        assert(nr[t] == reports[t]);
                    }
                }
                if processed {
                    assert(nr[k as int].processed > 0);
                } else {
                    assert forall|t: int| 0 <= t < k + 1 && #[trigger] nr[t].processed > 0 implies 0 <= t < k
                        && reports[t].processed > 0 by {
                        assert(nr[t] == reports[t]);
                    }
                }
                reports = nr;
            }
            k += 1;
        }
        let ghost m1 = self@;
        let progress = self.finish_cycle(children, processed_any, escalate);
        proof {
            let verdicts = choose|v: Seq<Result<(), E>>|
                answers(escalate, m1.escalations, v) && (self@, progress) == m1.finish_cycle(all_children(reports), processed_any, v);
            assert((self@, progress) == before.drain_ready(now, reports, verdicts));
        }
        Ok(progress)
    }

    /// Processes one cycle (see [`ReadyQueueSchedulerCore::drain_ready`])
    /// and discards the progress flag.
    pub fn dispatch_all<Q, R: Fn(usize) -> Result<ActorReport<E>, Q>, F: Fn(E) -> Result<(), E>>(
        &mut self,
        now: Option<u64>,
        run: R,
        escalate: F,
    ) -> (r: Result<(), Q>)
        requires
            old(self).wf(),
            forall|i: usize| run.requires((i,)),
            forall|e: E| escalate.requires((e,)),
        ensures
            final(self).wf(),
            match r {
                Ok(()) => exists|progress: bool| drained(run, escalate, old(self)@, now, final(self)@, progress),
                Err(q) => drain_failed(run, old(self)@, now, final(self)@, q),
            },
    {
        match self.drain_ready(now, run, escalate) {
            Ok(_) => Ok(()),
            Err(q) => Err(q),
        }
    }

    /// A copy of actor `index`'s cell, if it exists.
    pub fn actor(&self, index: usize) -> (cell: Option<ActorCell>)
        ensures
            cell == (if index < self@.actors.len() {
                Some(self@.actors[index as int])
            } else {
                None
            }),
    {
        if index < self.actors.len() {
            Some(self.actors[index])
        } else {
            None
        }
    }

    /// Actor `index`'s cell, to change in place, if it exists.
    pub fn actor_mut(&mut self, index: usize) -> (cell: Option<&mut ActorCell>)
        requires
            old(self).wf(),
        ensures
            final(self).wf(),
            match cell {
                Some(c) => index < old(self)@.actors.len() && *c == old(self)@.actors[index as int]
                    && final(self)@ == (CoreModel {
                    actors: old(self)@.actors.update(index as int, *final(c)),
                    ..old(self)@
                }),
                None => index >= old(self)@.actors.len() && final(self)@ == old(self)@,
            },
    {
        if index < self.actors.len() {
            Some(&mut self.actors[index])
        } else {
            None
        }
    }

    /// Returns how many `Resume` messages actor `index` awaits and resets
    /// the count; 0 when the actor does not exist.
    pub fn take_resume_requests(&mut self, index: usize) -> (n: u64)
        requires
            old(self).wf(),
        ensures
            final(self).wf(),
            index < old(self)@.actors.len() ==> (n == old(self)@.actors[index as int].pending_resumes
                && final(self)@ == (CoreModel {
                actors: old(self)@.actors.update(
                    index as int,
                    ActorCell { pending_resumes: 0, ..old(self)@.actors[index as int] },
                ),
                ..old(self)@
            })),
            index >= old(self)@.actors.len() ==> (n == 0 && final(self)@ == old(self)@),
    {
        if index < self.actors.len() {
            let mut cell = self.actors[index];
            let n = cell.take_resume_requests();
            self.actors.set(index, cell);
            n
        } else {
            0
        }
    }

    /// Removes and returns the installed coordinator.
    pub fn take_ready_queue_coordinator(&mut self) -> (c: Option<C>)
        requires
            old(self).wf(),
        ensures
            final(self).wf(),
            final(self)@ == (CoreModel { coordinator: None, coordinator_throughput: None, ..old(self)@ }),
            c matches Some(c) ==> (c.well_formed() && old(self)@.coordinator == Some(c.ready_model())
                && old(self)@.coordinator_throughput == Some(c.throughput_view())),
            c is None ==> old(self)@.coordinator is None,
    {
        self.ready_coordinator.take()
    }
}

} // verus!
