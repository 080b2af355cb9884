//! Sequences of calls on shared-use coordinators, and what they give: every
//! shared-use coordinator answers a sequence of calls as its model says, so
//! coordinators in the same state answer the same sequence alike.

use vstd::prelude::*;

use crate::coordinator::{AdaptiveCoordinator, DefaultReadyQueueCoordinatorV2, ReadyQueueCoordinatorV2};
use crate::coordinator_types::InvokeResult;
use crate::mailbox_index::MailboxIndex;
use crate::ready_model::ReadyQueueModel;

verus! {

/// One call on a shared-use coordinator.
#[derive(Debug)]
pub enum CoordinatorCall {
    /// `register_ready(idx)`.
    Register(MailboxIndex),
    /// `unregister(idx)`.
    Unregister(MailboxIndex),
    /// `drain_ready_cycle(max_batch, ..)`.
    Drain(usize),
    /// `poll_wait_signal()`.
    Poll,
    /// `handle_invoke_result(idx, result)`.
    Handle(MailboxIndex, InvokeResult),
    /// `process_retries(now)`.
    Retries(u64),
    /// `release_retries()`.
    Release,
}

/// The state after `call` from `m`, the mailboxes a drain hands out (empty
/// for the other calls) and the signal a poll reports (false for the other
/// calls).
pub open spec fn call_step(m: ReadyQueueModel, call: CoordinatorCall) -> (ReadyQueueModel, Seq<MailboxIndex>, bool) {
    match call {
        CoordinatorCall::Register(idx) => (m.register(idx), Seq::empty(), false),
        CoordinatorCall::Unregister(idx) => (m.unregister(idx), Seq::empty(), false),
        CoordinatorCall::Drain(n) => {
            let (out, post) = m.drain(n as nat);
            (post, out, false)
        },
        CoordinatorCall::Poll => {
            let (ready, post) = m.poll_signal();
            (post, Seq::empty(), ready)
        },
        CoordinatorCall::Handle(idx, result) => (m.handle_invoke_result(idx, result), Seq::empty(), false),
        CoordinatorCall::Retries(now) => (m.process_retries(now), Seq::empty(), false),
        CoordinatorCall::Release => (m.release_retries(), Seq::empty(), false),
    }
}

/// The state after `calls` from `m`, and what each call gave, in order.
pub open spec fn replay(m: ReadyQueueModel, calls: Seq<CoordinatorCall>) -> (ReadyQueueModel, Seq<(Seq<MailboxIndex>, bool)>)
    decreases calls.len(),
{
    if calls.len() == 0 {
        (m, Seq::empty())
    } else {
        let (mid, outs) = replay(m, calls.drop_last());
        let (post, batch, signal) = call_step(mid, calls.last());
        (post, outs.push((batch, signal)))
    }
}

/// What a call gave, as plain values.
pub open spec fn outcome_view(o: (Vec<MailboxIndex>, bool)) -> (Seq<MailboxIndex>, bool) {
    (o.0@, o.1)
}

/// Makes `call` on `c`; returns the mailboxes a drain handed out and the
/// signal a poll reported.
pub fn apply_call<C: ReadyQueueCoordinatorV2>(c: &mut C, call: CoordinatorCall) -> (r: (Vec<MailboxIndex>, bool))
    requires
        old(c).well_formed(),
    ensures
        final(c).well_formed(),
        final(c).throughput_view() == old(c).throughput_view(),
        (final(c).ready_model(), r.0@, r.1) == call_step(old(c).ready_model(), call),
{
    let mut out: Vec<MailboxIndex> = Vec::new();
    match call {
        CoordinatorCall::Register(idx) => {
            c.register_ready(idx);
            (out, false)
        },
        CoordinatorCall::Unregister(idx) => {
            c.unregister(idx);
            (out, false)
        },
        CoordinatorCall::Drain(n) => {
            c.drain_ready_cycle(n, &mut out);
            (out, false)
        },
        CoordinatorCall::Poll => {
            let ready = c.poll_wait_signal();
            (out, ready)
        },
        CoordinatorCall::Handle(idx, result) => {
            c.handle_invoke_result(idx, result);
            (out, false)
        },
        CoordinatorCall::Retries(now) => {
            c.process_retries(now);
            (out, false)
        },
        CoordinatorCall::Release => {
            c.release_retries();
            (out, false)
        },
    }
}

/// Makes `calls` on `c`, in order; returns what each gave.
pub fn replay_calls<C: ReadyQueueCoordinatorV2>(c: &mut C, calls: Vec<CoordinatorCall>) -> (outs: Vec<(Vec<MailboxIndex>, bool)>)
    requires
        old(c).well_formed(),
    ensures
        final(c).well_formed(),
        final(c).throughput_view() == old(c).throughput_view(),
        final(c).ready_model() == replay(old(c).ready_model(), calls@).0,
        outs@.map_values(|o: (Vec<MailboxIndex>, bool)| outcome_view(o)) == replay(old(c).ready_model(), calls@).1,
{
    let ghost start = c.ready_model();
    let ghost all = calls@;
    let mut pending = calls;
    let mut stack: Vec<CoordinatorCall> = Vec::new();
    while pending.len() > 0
        invariant
            pending@ + stack@.reverse() == all,
        decreases pending.len(),
    {
        let ghost prev_p = pending@;
        let ghost prev_s = stack@;
        let call = pending.pop().unwrap();
        stack.push(call);
        assert(prev_p =~= pending@.push(call));
        assert(stack@.reverse() =~= prev_s.reverse().insert(0, call));
        assert(pending@ + stack@.reverse() =~= prev_p + prev_s.reverse());
    }
    assert(stack@.reverse() =~= all);
    let mut outs: Vec<(Vec<MailboxIndex>, bool)> = Vec::new();
    let ghost mut k: int = 0;
    assert(all.take(0) =~= Seq::<CoordinatorCall>::empty());
    assert(outs@.map_values(|o: (Vec<MailboxIndex>, bool)| outcome_view(o)) =~= Seq::<(Seq<MailboxIndex>, bool)>::empty());
    while stack.len() > 0
        invariant
            c.well_formed(),
            c.throughput_view() == old(c).throughput_view(),
            start == old(c).ready_model(),
            0 <= k <= all.len(),
            k + stack.len() == all.len(),
            stack@.reverse() == all.skip(k),
            c.ready_model() == replay(start, all.take(k)).0,
            outs@.map_values(|o: (Vec<MailboxIndex>, bool)| outcome_view(o)) == replay(start, all.take(k)).1,
        decreases stack.len(),
    {
        let ghost prev_stack = stack@;
        let ghost prev_outs = outs@;
        let call = stack.pop().unwrap();
        assert(all.skip(k)[0] == prev_stack.reverse()[0]);
        assert(prev_stack.reverse().drop_first() =~= stack@.reverse());
        assert(all.skip(k).drop_first() =~= all.skip(k + 1));
        assert(call == all[k]);
        assert(all.take(k + 1).drop_last() =~= all.take(k));
        assert(all.take(k + 1).last() == call);
        let o = apply_call(c, call);
        outs.push(o);
        assert(outs@.map_values(|o: (Vec<MailboxIndex>, bool)| outcome_view(o)) =~= prev_outs.map_values(
            |o: (Vec<MailboxIndex>, bool)| outcome_view(o),
        ).push(outcome_view(o)));
        proof {
            k = k + 1;
        }
    }
    assert(all.take(k) =~= all);
    outs
}

/// An adaptive coordinator behaves as the default shared-use coordinator:
/// from the same state (as after `AdaptiveCoordinator::new(t, h)` and
/// `DefaultReadyQueueCoordinatorV2::new(t)`), the same sequence of calls
/// gives the same answers, the same final state and the same throughput.
pub proof fn lemma_adaptive_replays_as_default(
    a: AdaptiveCoordinator,
    d: DefaultReadyQueueCoordinatorV2,
    calls: Seq<CoordinatorCall>,
)
    requires
        a.ready_model() == d.ready_model(),
        a.throughput_view() == d.throughput_view(),
    ensures
        replay(a.ready_model(), calls) == replay(d.ready_model(), calls),
{
}

} // verus!
