//! Scheduler that executes actors immediately with the ready-queue
//! scheduling logic.

use vstd::prelude::*;

use crate::coordinator::ReadyQueueCoordinator;
use crate::scheduler_core::{drain_failed, drained, ActorCell, ActorReport, CoreModel, MetricsEvent, ReadyQueueSchedulerCore};

verus! {

/// Scheduler wrapper that delegates to [`ReadyQueueSchedulerCore`] but
/// exposes a distinct entry point.
pub struct ImmediateScheduler<C: ReadyQueueCoordinator, E> {
    inner: ReadyQueueSchedulerCore<C, E>,
}

impl<C: ReadyQueueCoordinator, E> View for ImmediateScheduler<C, E> {
    type V = CoreModel<E>;

    closed spec fn view(&self) -> CoreModel<E> {
        self.inner@
    }
}

impl<C: ReadyQueueCoordinator, E> ImmediateScheduler<C, E> {
    /// The scheduler core it delegates to.
    pub closed spec fn inner_core(&self) -> ReadyQueueSchedulerCore<C, E> {
        self.inner
    }

    /// The immediate scheduler is the core it delegates to: its state and
    /// invariant are the core's, and each of its operations carries the
    /// core operation's contract.
    pub proof fn lemma_refines_core(&self)
        ensures
            self@ == self.inner_core()@,
            self.wf() == self.inner_core().wf(),
    {
    }

    /// The wrapped core is well formed.
    pub closed spec fn wf(&self) -> bool {
        self.inner.wf()
    }

    /// Creates a scheduler without actors, coordinator or metrics sink.
    pub fn new() -> (s: Self)
        ensures
            s.wf(),
            s@ == (CoreModel {
                actors: Seq::empty(),
                registry: crate::suspend_registry::SuspendModel::empty(),
                coordinator: None,
                coordinator_throughput: None,
                metrics: None,
                escalations: Seq::<E>::empty(),
            }),
    {
        ImmediateScheduler { inner: ReadyQueueSchedulerCore::new() }
    }

    /// Registers an actor; returns its index.
    pub fn spawn_actor(&mut self, cell: ActorCell) -> (index: usize)
        requires
            old(self).wf(),
        ensures
            final(self).wf(),
            index == old(self)@.actors.len(),
            final(self)@ == (CoreModel { actors: old(self)@.actors.push(cell), ..old(self)@ }).record(
                MetricsEvent::ActorRegistered,
                1,
            ),
    {
        self.inner.spawn_actor(cell)
    }

    /// Installs a metrics sink (a buffer of recorded events) or removes it.
    pub fn set_metrics_sink(&mut self, sink: Option<Vec<MetricsEvent>>)
        requires
            old(self).wf(),
        ensures
            final(self).wf(),
            final(self)@ == (CoreModel {
                metrics: match sink {
                    Some(v) => Some(v@),
                    None => None,
                },
                ..old(self)@
            }),
    {
        self.inner.set_metrics_sink(sink)
    }

    /// Number of actors.
    pub fn actor_count(&self) -> (n: usize)
        ensures
            n == self@.actors.len(),
    {
        self.inner.actor_count()
    }

    /// Takes the escalations waiting to be handled, in order.
    pub fn take_escalations(&mut self) -> (taken: Vec<E>)
        requires
            old(self).wf(),
        ensures
            final(self).wf(),
            taken@ == old(self)@.escalations,
            final(self)@ == (CoreModel { escalations: Seq::empty(), ..old(self)@ }),
    {
        self.inner.take_escalations()
    }

    /// Processes one cycle (see [`ReadyQueueSchedulerCore::drain_ready`]).
    pub fn drain_ready<Q, R: Fn(usize) -> Result<ActorReport<E>, Q>, F: Fn(E) -> Result<(), E>>(
        &mut self,
        now: Option<u64>,
        run: R,
        escalate: F,
    ) -> (r: Result<bool, Q>)
        requires
            old(self).wf(),
            forall|i: usize| run.requires((i,)),
            forall|e: E| escalate.requires((e,)),
        ensures
            final(self).wf(),
            match r {
                Ok(progress) => drained(run, escalate, old(self)@, now, final(self)@, progress),
                Err(q) => drain_failed(run, old(self)@, now, final(self)@, q),
            },
    {
        self.inner.drain_ready(now, run, escalate)
    }
}

} // verus!
