//! The scheduler core together with the ready queue that the workers take
//! actors from.

use vstd::prelude::*;

use crate::coordinator::ReadyQueueCoordinator;
use crate::ready_queue_state::{ReadyQueueState, ReadyStateModel};
use crate::scheduler_core::{drain_failed, drained, processed_pending, ActorCell, ActorReport, CoreModel, ReadyQueueSchedulerCore};

verus! {

/// Abstract state of a [`ReadyQueueContext`].
pub struct ContextModel<E> {
    /// The scheduler core.
    pub core: CoreModel<E>,
    /// The ready queue.
    pub ready: ReadyStateModel,
}

/// Whether actor `index` of `core` exists and has pending messages.
pub open spec fn has_pending_at<E>(core: CoreModel<E>, index: usize) -> bool {
    index < core.actors.len() && core.actors[index as int].has_pending
}

/// The scheduler core and the ready queue of actor indices.
pub struct ReadyQueueContext<C: ReadyQueueCoordinator, E> {
    core: ReadyQueueSchedulerCore<C, E>,
    state: ReadyQueueState,
}

impl<C: ReadyQueueCoordinator, E> View for ReadyQueueContext<C, E> {
    type V = ContextModel<E>;

    closed spec fn view(&self) -> ContextModel<E> {
        ContextModel { core: self.core@, ready: self.state@ }
    }
}

impl<C: ReadyQueueCoordinator, E> ReadyQueueContext<C, E> {
    /// The core and the ready queue are well formed.
    pub closed spec fn wf(&self) -> bool {
        self.core.wf() && self.state.wf()
    }

    /// The suspension bookkeeping of the core is finite and well formed.
    pub proof fn lemma_registry_finite(&self)
        ensures
            self@.core.registry.wf(),
    {
        self.core.lemma_registry_finite();
    }

    /// A context around `core` with an empty ready queue.
    pub fn new(core: ReadyQueueSchedulerCore<C, E>) -> (ctx: Self)
        requires
            core.wf(),
        ensures
            ctx.wf(),
            ctx@ == (ContextModel { core: core@, ready: ReadyStateModel::empty() }),
    {
        ReadyQueueContext { core, state: ReadyQueueState::new() }
    }

    /// Number of actors.
    pub fn actor_count(&self) -> (n: usize)
        ensures
            n == self@.core.actors.len(),
    {
        self.core.actor_count()
    }

    /// Whether actor `index` exists and has pending messages.
    pub fn actor_has_pending(&self, index: usize) -> (r: bool)
        ensures
            r == has_pending_at(self@.core, index),
    {
        self.core.actor_has_pending(index)
    }

    /// Registers an actor with the core; returns its index.
    pub fn spawn_actor(&mut self, cell: ActorCell) -> (index: usize)
        requires
            old(self).wf(),
        ensures
            final(self).wf(),
            index == old(self)@.core.actors.len(),
            final(self)@.ready == old(self)@.ready,
            final(self)@.core == (CoreModel { actors: old(self)@.core.actors.push(cell), ..old(self)@.core }).record(
                crate::scheduler_core::MetricsEvent::ActorRegistered,
                1,
            ),
    {
        self.core.spawn_actor(cell)
    }

    /// Enqueues actor `index` unless it is running or queued already.
    pub fn enqueue_ready(&mut self, index: usize)
        requires
            old(self).wf(),
            index < usize::MAX,
        ensures
            final(self).wf(),
            final(self)@ == (ContextModel { ready: old(self)@.ready.enqueue_if_idle(index).0, ..old(self)@ }),
    {
        let _ = self.state.enqueue_if_idle(index);
    }

    /// Takes the next ready index and marks it running.
    pub fn dequeue_ready(&mut self) -> (index: Option<usize>)
        requires
            old(self).wf(),
        ensures
            final(self).wf(),
            index == old(self)@.ready.pop_front().1,
            final(self)@ == (ContextModel {
                ready: match index {
                    Some(i) => old(self)@.ready.pop_front().0.mark_running(i),
                    None => old(self)@.ready,
                },
                ..old(self)@
            }),
            index matches Some(i) ==> i < usize::MAX,
    {
        proof {
            if self.state@.queue.len() > 0 {
                assert(self.state@.queue[0] < usize::MAX);
            }
        }
        self.state.dequeue_ready()
    }

    /// Marks actor `index` idle and enqueues it again when it has pending
    /// messages.
    pub fn mark_idle(&mut self, index: usize, has_pending: bool)
        requires
            old(self).wf(),
            index < usize::MAX,
        ensures
            final(self).wf(),
            final(self)@ == (ContextModel { ready: old(self)@.ready.mark_idle(index, has_pending), ..old(self)@ }),
    {
        self.state.mark_idle(index, has_pending);
    }

    /// Returns how many `Resume` messages actor `index` awaits and resets
    /// the count (see [`ReadyQueueSchedulerCore::take_resume_requests`]).
    pub fn take_resume_requests(&mut self, index: usize) -> (n: u64)
        requires
            old(self).wf(),
        ensures
            final(self).wf(),
            final(self)@.ready == old(self)@.ready,
            index < old(self)@.core.actors.len() ==> (n == old(self)@.core.actors[index as int].pending_resumes
                && final(self)@.core == (CoreModel {
                actors: old(self)@.core.actors.update(
                    index as int,
                    ActorCell { pending_resumes: 0, ..old(self)@.core.actors[index as int] },
                ),
                ..old(self)@.core
            })),
            index >= old(self)@.core.actors.len() ==> (n == 0 && final(self)@ == old(self)@),
    {
        self.core.take_resume_requests(index)
    }

    /// Takes the metrics events recorded since the last take (see
    /// [`ReadyQueueSchedulerCore::take_metrics_events`]).
    pub fn take_metrics_events(&mut self) -> (events: Vec<crate::scheduler_core::MetricsEvent>)
        requires
            old(self).wf(),
        ensures
            final(self).wf(),
            final(self)@.ready == old(self)@.ready,
            old(self)@.core.metrics matches Some(log) ==> (events@ == log && final(self)@.core == (CoreModel {
                metrics: Some(Seq::empty()),
                ..old(self)@.core
            })),
            old(self)@.core.metrics is None ==> (events@.len() == 0 && final(self)@ == old(self)@),
    {
        self.core.take_metrics_events()
    }

    /// Takes the escalations waiting to be handled, in order.
    pub fn take_escalations(&mut self) -> (taken: Vec<E>)
        requires
            old(self).wf(),
        ensures
            final(self).wf(),
            taken@ == old(self)@.core.escalations,
            final(self)@ == (ContextModel {
                core: CoreModel { escalations: Seq::empty(), ..old(self)@.core },
                ..old(self)@
            }),
    {
        self.core.take_escalations()
    }

    /// Processes one ready actor, if one is queued: the core processes it
    /// with `run` and `escalate` (see
    /// [`ReadyQueueSchedulerCore::process_actor_pending`]), then the actor is
    /// marked idle, queued again when messages still wait in its mailbox;
    /// returns what the core reported. With no ready actor, one cycle runs
    /// over all actors (see [`ReadyQueueSchedulerCore::drain_ready`]) and
    /// `Some(true)` is returned when it made progress, `None` otherwise. A
    /// failure of `run` is returned at once; the actor being processed then
    /// stays marked running.
    pub fn process_ready_once<Q, R: Fn(usize) -> Result<ActorReport<E>, Q>, F: Fn(E) -> Result<(), E>>(
        &mut self,
        now: Option<u64>,
        run: R,
        escalate: F,
    ) -> (r: Result<Option<bool>, Q>)
        requires
            old(self).wf(),
            forall|i: usize| run.requires((i,)),
            forall|e: E| escalate.requires((e,)),
        ensures
            final(self).wf(),
            ({
                let (popped, front) = old(self)@.ready.pop_front();
                match front {
                    Some(i) => if i < old(self)@.core.actors.len() {
                        match r {
                            Ok(Some(p)) => {
                                &&& processed_pending(run, escalate, old(self)@.core, i, now, final(self)@.core, p)
                                &&& final(self)@.ready == popped.mark_running(i).mark_idle(
                                    i,
                                    has_pending_at(final(self)@.core, i),
                                )
                            },
                            Ok(None) => false,
                            Err(q) => {
                                &&& run.ensures((i,), Err::<ActorReport<E>, Q>(q))
                                &&& final(self)@.core == old(self)@.core
                                &&& final(self)@.ready == popped.mark_running(i)
                            },
                        }
                    } else {
                        &&& final(self)@.core == old(self)@.core
                        &&& final(self)@.ready == popped.mark_running(i).mark_idle(i, false)
                        &&& r == Ok::<Option<bool>, Q>(Some(false))
                    },
                    None => final(self)@.ready == old(self)@.ready && match r {
                        Ok(Some(p)) => p && drained(run, escalate, old(self)@.core, now, final(self)@.core, true),
                        Ok(None) => drained(run, escalate, old(self)@.core, now, final(self)@.core, false),
                        Err(q) => drain_failed(run, old(self)@.core, now, final(self)@.core, q),
                    },
                }
            }),
    {
        match self.dequeue_ready() {
            Some(index) => {
                let processed = match self.core.process_actor_pending(index, now, run, escalate) {
                    Ok(p) => p,
                    Err(q) => {
                        return Err(q);
                    },
                };
                let has_pending = self.core.actor_has_pending(index);
                self.state.mark_idle(index, has_pending);
                Ok(Some(processed))
            },
            None => match self.core.drain_ready(now, run, escalate) {
                Ok(true) => Ok(Some(true)),
                Ok(false) => Ok(None),
                Err(q) => Err(q),
            },
        }
    }
}

} // verus!
