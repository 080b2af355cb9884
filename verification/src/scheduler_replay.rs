//! Sequences of calls on a scheduler: the scheduler core and the immediate
//! scheduler answer every sequence of calls as the same relation over
//! [`CoreModel`] allows, so the immediate scheduler behaves as the core.

use vstd::prelude::*;

use crate::coordinator::ReadyQueueCoordinator;
use crate::immediate_scheduler::ImmediateScheduler;
use crate::scheduler_core::{
    drain_failed, drained, ActorCell, ActorReport, CoreModel, MetricsEvent, ReadyQueueSchedulerCore,
};

verus! {

/// One call on a scheduler.
#[derive(Debug)]
pub enum SchedulerCall {
    /// `spawn_actor(cell)`.
    Spawn(ActorCell),
    /// `set_metrics_sink(sink)`.
    SetMetricsSink(Option<Vec<MetricsEvent>>),
    /// `actor_count()`.
    ActorCount,
    /// `take_escalations()`.
    TakeEscalations,
    /// `drain_ready(now, ..)`.
    Drain(Option<u64>),
}

/// What a call on a scheduler gave.
#[derive(Debug, PartialEq)]
pub enum SchedulerAnswer<E, Q> {
    /// The index of a spawned actor.
    Index(usize),
    /// A call without result.
    Done,
    /// The number of actors.
    Count(usize),
    /// The escalations taken.
    Escalations(Vec<E>),
    /// The outcome of a cycle.
    Drained(Result<bool, Q>),
}

/// Whether `call` from `m` may give `answer` and leave `post`, with `run`
/// and `escalate` as the runtime's closures.
pub open spec fn step_ok<E, Q, R: Fn(usize) -> Result<ActorReport<E>, Q>, F: Fn(E) -> Result<(), E>>(
    run: R,
    escalate: F,
    m: CoreModel<E>,
    call: SchedulerCall,
    post: CoreModel<E>,
    answer: SchedulerAnswer<E, Q>,
) -> bool {
    match call {
        SchedulerCall::Spawn(cell) => {
            &&& answer == SchedulerAnswer::<E, Q>::Index(m.actors.len() as usize)
            &&& post == (CoreModel { actors: m.actors.push(cell), ..m }).record(MetricsEvent::ActorRegistered, 1)
        },
        SchedulerCall::SetMetricsSink(sink) => {
            &&& answer == SchedulerAnswer::<E, Q>::Done
            &&& post == (CoreModel {
                metrics: match sink {
                    Some(v) => Some(v@),
                    None => None,
                },
                ..m
            })
        },
        SchedulerCall::ActorCount => answer == SchedulerAnswer::<E, Q>::Count(m.actors.len() as usize) && post == m,
        SchedulerCall::TakeEscalations => match answer {
            SchedulerAnswer::Escalations(taken) => taken@ == m.escalations && post == (CoreModel {
                escalations: Seq::empty(),
                ..m
            }),
            _ => false,
        },
        SchedulerCall::Drain(now) => match answer {
            SchedulerAnswer::Drained(Ok(progress)) => drained(run, escalate, m, now, post, progress),
            SchedulerAnswer::Drained(Err(q)) => drain_failed(run, m, now, post, q),
            _ => false,
        },
    }
}

/// Whether `calls` may give `answers`, one per call in order, passing
/// through `states`: the call at position `k` leads from `states[k]` to
/// `states[k + 1]`.
pub open spec fn replays_through<E, Q, R: Fn(usize) -> Result<ActorReport<E>, Q>, F: Fn(E) -> Result<(), E>>(
    run: R,
    escalate: F,
    states: Seq<CoreModel<E>>,
    calls: Seq<SchedulerCall>,
    answers: Seq<SchedulerAnswer<E, Q>>,
) -> bool {
    &&& states.len() == calls.len() + 1
    &&& answers.len() == calls.len()
    &&& forall|k: int|
        0 <= k < calls.len() ==> #[trigger] step_ok(run, escalate, states[k], calls[k], states[k + 1], answers[k])
}

/// Whether `calls` from `m` may give `answers`, one per call in order, and
/// leave `post`.
pub open spec fn replays<E, Q, R: Fn(usize) -> Result<ActorReport<E>, Q>, F: Fn(E) -> Result<(), E>>(
    run: R,
    escalate: F,
    m: CoreModel<E>,
    calls: Seq<SchedulerCall>,
    post: CoreModel<E>,
    answers: Seq<SchedulerAnswer<E, Q>>,
) -> bool {
    exists|states: Seq<CoreModel<E>>|
        #![trigger replays_through(run, escalate, states, calls, answers)]
        replays_through(run, escalate, states, calls, answers) && states[0] == m && states.last() == post
}

/// A scheduler whose operations are those of the scheduler core over
/// [`CoreModel`].
pub trait CoreScheduler<E> {
    /// The scheduler's state.
    spec fn core_model(&self) -> CoreModel<E>;

    /// The scheduler's invariant.
    spec fn core_ok(&self) -> bool;

    /// Makes `call`; `run` and `escalate` serve a cycle.
    fn apply<Q, R: Fn(usize) -> Result<ActorReport<E>, Q> + Copy, F: Fn(E) -> Result<(), E> + Copy>(
        &mut self,
        call: SchedulerCall,
        run: R,
        escalate: F,
    ) -> (answer: SchedulerAnswer<E, Q>)
        requires
            old(self).core_ok(),
            forall|i: usize| run.requires((i,)),
            forall|e: E| escalate.requires((e,)),
        ensures
            final(self).core_ok(),
            step_ok(run, escalate, old(self).core_model(), call, final(self).core_model(), answer),
    ;
}

impl<C: ReadyQueueCoordinator, E> CoreScheduler<E> for ReadyQueueSchedulerCore<C, E> {
    closed spec fn core_model(&self) -> CoreModel<E> {
        self@
    }

    closed spec fn core_ok(&self) -> bool {
        self.wf()
    }

    fn apply<Q, R: Fn(usize) -> Result<ActorReport<E>, Q> + Copy, F: Fn(E) -> Result<(), E> + Copy>(
        &mut self,
        call: SchedulerCall,
        run: R,
        escalate: F,
    ) -> (answer: SchedulerAnswer<E, Q>) {
        match call {
            SchedulerCall::Spawn(cell) => SchedulerAnswer::Index(self.spawn_actor(cell)),
            SchedulerCall::SetMetricsSink(sink) => {
                self.set_metrics_sink(sink);
                SchedulerAnswer::Done
            },
            SchedulerCall::ActorCount => SchedulerAnswer::Count(self.actor_count()),
            SchedulerCall::TakeEscalations => SchedulerAnswer::Escalations(self.take_escalations()),
            SchedulerCall::Drain(now) => SchedulerAnswer::Drained(self.drain_ready(now, run, escalate)),
        }
    }
}

impl<C: ReadyQueueCoordinator, E> CoreScheduler<E> for ImmediateScheduler<C, E> {
    closed spec fn core_model(&self) -> CoreModel<E> {
        self@
    }

    closed spec fn core_ok(&self) -> bool {
        self.wf()
    }

    fn apply<Q, R: Fn(usize) -> Result<ActorReport<E>, Q> + Copy, F: Fn(E) -> Result<(), E> + Copy>(
        &mut self,
        call: SchedulerCall,
        run: R,
        escalate: F,
    ) -> (answer: SchedulerAnswer<E, Q>) {
        match call {
            SchedulerCall::Spawn(cell) => SchedulerAnswer::Index(self.spawn_actor(cell)),
            SchedulerCall::SetMetricsSink(sink) => {
                self.set_metrics_sink(sink);
                SchedulerAnswer::Done
            },
            SchedulerCall::ActorCount => SchedulerAnswer::Count(self.actor_count()),
            SchedulerCall::TakeEscalations => SchedulerAnswer::Escalations(self.take_escalations()),
            SchedulerCall::Drain(now) => SchedulerAnswer::Drained(self.drain_ready(now, run, escalate)),
        }
    }
}

/// Makes `calls` on `s`, in order; returns what each gave.
pub fn replay_scheduler_calls<
    E,
    Q,
    S: CoreScheduler<E>,
    R: Fn(usize) -> Result<ActorReport<E>, Q> + Copy,
    F: Fn(E) -> Result<(), E> + Copy,
>(s: &mut S, calls: Vec<SchedulerCall>, run: R, escalate: F) -> (answers: Vec<SchedulerAnswer<E, Q>>)
    requires
        old(s).core_ok(),
        forall|i: usize| run.requires((i,)),
        forall|e: E| escalate.requires((e,)),
    ensures
        final(s).core_ok(),
        replays(run, escalate, old(s).core_model(), calls@, final(s).core_model(), answers@),
{
    let ghost start = s.core_model();
    let ghost all = calls@;
    let mut pending = calls;
    let mut stack: Vec<SchedulerCall> = Vec::new();
    while pending.len() > 0
        invariant
            pending@ + stack@.reverse() == all,
        decreases pending.len(),
    {
        let ghost prev_p = pending@;
        let ghost prev_s = stack@;
        let call = pending.pop().unwrap();
        stack.push(call);
        assert(prev_p =~= pending@.push(call));
        assert(stack@.reverse() =~= prev_s.reverse().insert(0, call));
        assert(pending@ + stack@.reverse() =~= prev_p + prev_s.reverse());
    }
    assert(stack@.reverse() =~= all);
    let mut answers: Vec<SchedulerAnswer<E, Q>> = Vec::new();
    let ghost mut k: int = 0;
    let ghost mut states: Seq<CoreModel<E>> = seq![start];
    assert(all.take(0) =~= Seq::<SchedulerCall>::empty());
    while stack.len() > 0
        invariant
            s.core_ok(),
            start == old(s).core_model(),
            forall|i: usize| run.requires((i,)),
            forall|e: E| escalate.requires((e,)),
            0 <= k <= all.len(),
            k + stack.len() == all.len(),
            stack@.reverse() == all.skip(k),
            answers@.len() == k,
            replays_through(run, escalate, states, all.take(k), answers@),
            states[0] == start,
            states.last() == s.core_model(),
        decreases stack.len(),
    {
        let ghost prev_stack = stack@;
        let ghost prev_answers = answers@;
        let call = stack.pop().unwrap();
        assert(all.skip(k)[0] == prev_stack.reverse()[0]);
        assert(prev_stack.reverse().drop_first() =~= stack@.reverse());
        assert(all.skip(k).drop_first() =~= all.skip(k + 1));
        assert(call == all[k]);
        assert(all.take(k + 1).drop_last() =~= all.take(k));
        assert(all.take(k + 1).last() == call);
        let ghost call_g = call;
        let answer = s.apply(call, run, escalate);
        answers.push(answer);
        proof {
            let ns = states.push(s.core_model());
            assert(answers@.drop_last() =~= prev_answers);
            assert forall|t: int| 0 <= t < k + 1 implies #[trigger] step_ok(
                run,
                escalate,
                ns[t],
                all.take(k + 1)[t],
                ns[t + 1],
                answers@[t],
            ) by {
                if t < k {
                    assert(all.take(k + 1)[t] == all.take(k)[t]);
                    assert(answers@[t] == prev_answers[t]);
                } else {
                    assert(all.take(k + 1)[t] == call_g);
                }
            }
            states = ns;
            k = k + 1;
        }
    }
    assert(all.take(k) =~= all);
    assert(replays_through(run, escalate, states, all, answers@));
    answers
}

/// The immediate scheduler behaves as the scheduler core: from the same
/// state (as after `ImmediateScheduler::new()` and
/// `ReadyQueueSchedulerCore::new()`), a sequence of calls may give exactly
/// the answers and the final state on the one that it may give on the
/// other.
pub proof fn lemma_immediate_replays_as_core<
    C: ReadyQueueCoordinator,
    E,
    Q,
    R: Fn(usize) -> Result<ActorReport<E>, Q>,
    F: Fn(E) -> Result<(), E>,
>(
    s: ImmediateScheduler<C, E>,
    c: ReadyQueueSchedulerCore<C, E>,
    run: R,
    escalate: F,
    calls: Seq<SchedulerCall>,
    post: CoreModel<E>,
    answers: Seq<SchedulerAnswer<E, Q>>,
)
    requires
        s.core_model() == c.core_model(),
    ensures
        replays(run, escalate, s.core_model(), calls, post, answers) == replays(
            run,
            escalate,
            c.core_model(),
            calls,
            post,
            answers,
        ),
{
}

} // verus!
