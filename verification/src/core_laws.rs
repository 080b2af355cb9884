//! Laws of the scheduler core.

use vstd::prelude::*;

use crate::coordinator_types::{InvokeResult, ResumeCondition, SuspendReason};
use crate::mailbox_index::SignalKey;
use crate::scheduler_core::{any_handled, mailbox_of, refused, running_cells, ActorCell, ActorReport, CoreModel, MetricsEvent};
use crate::suspend_laws::{lemma_clear, lemma_signal_resumes};

verus! {

/// Keeping the running cells drops exactly the stopped ones, in order.
pub proof fn lemma_running_cells(s: Seq<ActorCell>)
    ensures
        forall|i: int| 0 <= i < running_cells(s).len() ==> !(#[trigger] running_cells(s)[i]).stopped,
        running_cells(s).len() <= s.len(),
        (forall|i: int| 0 <= i < s.len() ==> !(#[trigger] s[i]).stopped) ==> running_cells(s) == s,
    decreases s.len(),
{
    if s.len() > 0 {
        lemma_running_cells(s.drop_last());
        let rest = running_cells(s.drop_last());
        if !s.last().stopped {
            assert forall|i: int| 0 <= i < rest.push(s.last()).len() implies !(#[trigger] rest.push(
                s.last(),
            )[i]).stopped by {
                if i < rest.len() {
                    assert(rest.push(s.last())[i] == rest[i]);
                }
            }
        }
        if forall|i: int| 0 <= i < s.len() ==> !(#[trigger] s[i]).stopped {
            assert forall|i: int| 0 <= i < s.drop_last().len() implies !(#[trigger] s.drop_last()[i]).stopped by {
                assert(s.drop_last()[i] == s[i]);
            }
            assert(s.drop_last().push(s.last()) =~= s);
        }
    }
}

/// After a cycle ends no stopped actor remains, only the escalations that
/// were given back still wait, and the cycle reports progress when anything
/// was processed or an escalation was handled.
pub proof fn lemma_finish_cycle_prunes<E>(
    m: CoreModel<E>,
    children: Seq<ActorCell>,
    processed_any: bool,
    verdicts: Seq<Result<(), E>>,
)
    ensures
        ({
            let (post, progress) = m.finish_cycle(children, processed_any, verdicts);
            &&& forall|i: int| 0 <= i < post.actors.len() ==> !(#[trigger] post.actors[i]).stopped
            &&& post.escalations == refused(verdicts)
            &&& (processed_any || any_handled(verdicts)) ==> progress
            &&& post.actors.len() <= m.actors.len() + children.len()
        }),
{
    lemma_running_cells(m.actors + children);
}

/// An outcome that asks for re-scheduling (a completion with the ready
/// hint, or a yield) leaves the actor's mailbox registered with the
/// coordinator, and the actor not suspended.
pub proof fn lemma_ready_outcome_reregisters<E>(m: CoreModel<E>, index: usize, result: InvokeResult, now: Option<u64>)
    requires
        result == (InvokeResult::Completed { ready_hint: true }) || result == InvokeResult::Yielded,
    ensures
        ({
            let post = m.handle_invoke_outcome(index, Some(result), now);
            &&& !post.registry.conditions.contains_key(index)
            &&& (m.coordinator matches Some(c) ==> post.coordinator == Some(c.register(mailbox_of(index))))
            &&& post.actors == m.actors
        }),
{
    lemma_clear(m.registry, index);
}

/// An actor that suspended until an external signal is woken by that
/// signal: the signal reports the actor, a `Resume` message is asked for,
/// and its mailbox is registered with the coordinator.
pub proof fn lemma_signal_wakes_actor<E>(m: CoreModel<E>, index: usize, reason: SuspendReason, key: SignalKey)
    requires
        index < m.actors.len(),
    ensures
        ({
            let result = InvokeResult::Suspended { reason, resume_on: ResumeCondition::ExternalSignal(key) };
            let m1 = m.handle_invoke_outcome(index, Some(result), None);
            let (m2, found) = m1.notify_resume_signal(key);
            &&& m1.registry.conditions.contains_key(index)
            &&& found == Some(index)
            &&& !m2.registry.conditions.contains_key(index)
            &&& m2.actors[index as int] == m1.actors[index as int].with_resume()
            &&& (m1.coordinator matches Some(c) ==> m2.coordinator == Some(c.register(mailbox_of(index))))
        }),
{
    lemma_signal_resumes(m.registry, index, reason, key);
}

/// Processing a report records one `MailboxDequeued` event per processed
/// message when a sink is installed.
pub proof fn lemma_dequeued_recorded<E>(m: CoreModel<E>, index: usize, report: ActorReport<E>, now: Option<u64>)
    requires
        index < m.actors.len(),
        m.metrics is Some,
    ensures
        ({
            let post = m.apply_report(index, report, now);
            let before = m.metrics.unwrap();
            &&& post.metrics is Some
            &&& post.metrics.unwrap().len() == before.len() + report.processed
            &&& forall|i: int| before.len() <= i < post.metrics.unwrap().len() ==> #[trigger] post.metrics.unwrap()[i]
                == MetricsEvent::MailboxDequeued
        }),
{
}


/// A sequence with a stopped cell loses at least that cell when the
/// stopped cells are removed.
pub proof fn lemma_running_cells_shrinks(s: Seq<ActorCell>)
    ensures
        (exists|i: int| 0 <= i < s.len() && (#[trigger] s[i]).stopped) ==> running_cells(s).len() < s.len(),
    decreases s.len(),
{
    if s.len() > 0 {
        lemma_running_cells(s.drop_last());
        lemma_running_cells_shrinks(s.drop_last());
        if exists|i: int| 0 <= i < s.len() && (#[trigger] s[i]).stopped {
            if !s.last().stopped {
                let i = choose|i: int| 0 <= i < s.len() && (#[trigger] s[i]).stopped;
                assert(i < s.len() - 1);
                assert(s.drop_last()[i] == s[i]);
            }
        }
    }
}

/// A cycle reports progress exactly when it processed messages, when an
/// escalation was handled, or when it removed a stopped actor (one of the
/// actors or of the new children); a cycle that removes a stopped actor
/// always reports progress.
pub proof fn lemma_finish_cycle_progress<E>(
    m: CoreModel<E>,
    children: Seq<ActorCell>,
    processed_any: bool,
    verdicts: Seq<Result<(), E>>,
)
    ensures
        ({
            let all = m.actors + children;
            let (post, progress) = m.finish_cycle(children, processed_any, verdicts);
            &&& progress <==> (processed_any || any_handled(verdicts) || exists|i: int|
                0 <= i < all.len() && (#[trigger] all[i]).stopped)
            &&& (exists|i: int| 0 <= i < all.len() && (#[trigger] all[i]).stopped) ==> post.actors.len()
                < all.len()
        }),
{
    let all = m.actors + children;
    lemma_running_cells(all);
    lemma_running_cells_shrinks(all);
}

/// An actor that processed messages and reported no outcome of its own:
/// when it stopped, its mailbox leaves the coordinator's registered set;
/// otherwise its mailbox stays registered exactly when messages still wait
/// in it. The same holds after the whole cycle of `process_actor_pending`.
pub proof fn lemma_processed_report_registration<E>(
    m: CoreModel<E>,
    index: usize,
    report: ActorReport<E>,
    now: Option<u64>,
    verdicts: Seq<Result<(), E>>,
)
    requires
        index < m.actors.len(),
        m.coordinator is Some,
        report.result is None,
        report.processed > 0,
    ensures
        ({
            let post = m.apply_report(index, report, now);
            &&& post.coordinator is Some
            &&& report.stopped ==> !post.coordinator->0.queued.contains(mailbox_of(index))
            &&& !report.stopped ==> (post.coordinator->0.queued.contains(mailbox_of(index))
                <==> report.has_pending)
        }),
        ({
            let (post, _) = m.process_actor_pending(index, report, now, verdicts);
            &&& post.coordinator is Some
            &&& report.stopped ==> !post.coordinator->0.queued.contains(mailbox_of(index))
            &&& !report.stopped ==> (post.coordinator->0.queued.contains(mailbox_of(index))
                <==> report.has_pending)
        }),
{
}

/// The outcome an actor reports itself decides its registration: a yield,
/// or a completion with the ready hint, keeps its mailbox registered; a
/// completion without the hint, or a stop, removes it. A report that
/// processed nothing and gave no outcome leaves the coordinator unchanged.
pub proof fn lemma_reported_outcome_registration<E>(
    m: CoreModel<E>,
    index: usize,
    report: ActorReport<E>,
    now: Option<u64>,
)
    requires
        index < m.actors.len(),
        m.coordinator is Some,
    ensures
        ({
            let post = m.apply_report(index, report, now);
            let registered = post.coordinator is Some && post.coordinator->0.queued.contains(mailbox_of(index));
            &&& report.result == Some(InvokeResult::Yielded) ==> registered
            &&& report.result == Some(InvokeResult::Completed { ready_hint: true }) ==> registered
            &&& report.result == Some(InvokeResult::Completed { ready_hint: false }) ==> !registered
            &&& report.result == Some(InvokeResult::Stopped) ==> !registered
            &&& (report.result is None && report.processed == 0) ==> post.coordinator == m.coordinator
        }),
{
}

/// A cycle in which some actor processed messages, or some escalation was
/// handled, reports progress.
pub proof fn lemma_drain_progress<E>(
    m: CoreModel<E>,
    now: Option<u64>,
    reports: Seq<ActorReport<E>>,
    verdicts: Seq<Result<(), E>>,
)
    ensures
        ((exists|k: int| 0 <= k < reports.len() && (#[trigger] reports[k]).processed > 0) || any_handled(verdicts))
            ==> m.drain_ready(now, reports, verdicts).1,
{
    let applied = m.process_deadlines(now).apply_reports(reports, now);
    lemma_finish_cycle_progress(
        applied,
        crate::scheduler_core::all_children(reports),
        exists|k: int| 0 <= k < reports.len() && reports[k].processed > 0,
        verdicts,
    );
}

} // verus!
