//! Mathematical model of a ready queue: the queue of registered mailboxes
//! (which may hold stale entries of mailboxes unregistered since), the set of
//! mailboxes currently registered, and the pending-signal flag.

use vstd::prelude::*;

use crate::coordinator_types::{reregisters, InvokeResult};
use crate::mailbox_index::MailboxIndex;
use crate::suspend_registry::due_time;

verus! {

/// Abstract state of a ready-queue coordinator.
pub struct ReadyQueueModel {
    /// Entries in the order in which they were pushed; unregistered
    /// mailboxes stay here until drained and are then skipped.
    pub queue: Seq<MailboxIndex>,
    /// Mailboxes currently registered as ready.
    pub queued: Set<MailboxIndex>,
    /// Set when a mailbox was newly registered since the last poll.
    pub signal_pending: bool,
    /// Retries scheduled after failures, in order: the mailbox and the clock
    /// reading at which it is registered again.
    pub retries: Seq<(MailboxIndex, u64)>,
    /// The last clock reading the coordinator was given, in nanoseconds.
    pub clock: u64,
}

/// The mailboxes of the retries of `r` that are due at `now`, in order.
pub open spec fn due_retries(r: Seq<(MailboxIndex, u64)>, now: u64) -> Seq<MailboxIndex>
    decreases r.len(),
{
    if r.len() == 0 {
        Seq::empty()
    } else {
        let rest = due_retries(r.drop_last(), now);
        if r.last().1 <= now {
            rest.push(r.last().0)
        } else {
            rest
        }
    }
}

/// The retries of `r` that are not due at `now`, in order.
pub open spec fn later_retries(r: Seq<(MailboxIndex, u64)>, now: u64) -> Seq<(MailboxIndex, u64)>
    decreases r.len(),
{
    if r.len() == 0 {
        Seq::empty()
    } else {
        let rest = later_retries(r.drop_last(), now);
        if r.last().1 <= now {
            rest
        } else {
            rest.push(r.last())
        }
    }
}

impl ReadyQueueModel {
    /// A fresh coordinator: nothing queued, no signal pending.
    pub open spec fn empty() -> Self {
        ReadyQueueModel {
            queue: Seq::empty(),
            queued: Set::empty(),
            signal_pending: false,
            retries: Seq::empty(),
            clock: 0,
        }
    }

    /// Every registered mailbox has an entry in the queue.
    pub open spec fn wf(self) -> bool {
        forall|i: MailboxIndex| self.queued.contains(i) ==> #[trigger] self.queue.contains(i)
    }

    /// Registering a mailbox that is not yet registered appends it to the
    /// queue and raises the signal; registering it again changes nothing.
    pub open spec fn register(self, idx: MailboxIndex) -> Self {
        if self.queued.contains(idx) {
            self
        } else {
            ReadyQueueModel {
                queue: self.queue.push(idx),
                queued: self.queued.insert(idx),
                signal_pending: true,
                ..self
            }
        }
    }

    /// Unregistering removes the mailbox from the registered set only; its
    /// queue entries are skipped when drained.
    pub open spec fn unregister(self, idx: MailboxIndex) -> Self {
        ReadyQueueModel { queued: self.queued.remove(idx), ..self }
    }

    /// Drains at most `max_batch` queue entries from the front: each entry
    /// that is still registered is output and unregistered, the others are
    /// dropped. Returns the output and the state after the drain.
    pub open spec fn drain(self, max_batch: nat) -> (Seq<MailboxIndex>, Self)
        decreases max_batch,
    {
        if max_batch == 0 || self.queue.len() == 0 {
            (Seq::empty(), self)
        } else {
            let head = self.queue[0];
            if self.queued.contains(head) {
                let rest = ReadyQueueModel {
                    queue: self.queue.drop_first(),
                    queued: self.queued.remove(head),
                    ..self
                }.drain((max_batch - 1) as nat);
                (seq![head] + rest.0, rest.1)
            } else {
                ReadyQueueModel { queue: self.queue.drop_first(), ..self }.drain(
                    (max_batch - 1) as nat,
                )
            }
        }
    }

    /// Polling reports and clears the pending signal.
    pub open spec fn poll_signal(self) -> (bool, Self) {
        (self.signal_pending, ReadyQueueModel { signal_pending: false, ..self })
    }

    /// Handling an invocation outcome registers the mailbox again when the
    /// outcome asks for it and unregisters it otherwise; a failure with a
    /// retry delay also schedules a retry, due that delay after the last
    /// clock reading.
    pub open spec fn handle_invoke_result(self, idx: MailboxIndex, result: InvokeResult) -> Self {
        if reregisters(result) {
            self.register(idx)
        } else {
            match result {
                InvokeResult::Failed { retry_after: Some(d), .. } => {
                    let m = self.unregister(idx);
                    ReadyQueueModel { retries: m.retries.push((idx, due_time(m.clock, d.nanos()))), ..m }
                },
                _ => self.unregister(idx),
            }
        }
    }

    /// Registers each of `idxs`, in order.
    pub open spec fn register_all(self, idxs: Seq<MailboxIndex>) -> Self
        decreases idxs.len(),
    {
        if idxs.len() == 0 {
            self
        } else {
            self.register_all(idxs.drop_last()).register(idxs.last())
        }
    }

    /// Without a clock reading: every scheduled retry registers its
    /// mailbox at once, in order; the clock reading stays.
    pub open spec fn release_retries(self) -> Self {
        ReadyQueueModel { retries: Seq::empty(), ..self }.register_all(due_retries(self.retries, u64::MAX))
    }

    /// Takes the clock reading `now`: the retries due at `now` register
    /// their mailboxes, in order; the others stay scheduled.
    pub open spec fn process_retries(self, now: u64) -> Self {
        ReadyQueueModel { retries: later_retries(self.retries, now), clock: now, ..self }.register_all(
            due_retries(self.retries, now),
        )
    }
}

/// Registering and unregistering keep every registered mailbox in the queue.
pub proof fn lemma_register_unregister_wf(m: ReadyQueueModel, idx: MailboxIndex)
    requires
        m.wf(),
    ensures
        m.register(idx).wf(),
        m.unregister(idx).wf(),
{
    assert forall|i: MailboxIndex| m.register(idx).queued.contains(i) implies #[trigger] m.register(
        idx,
    ).queue.contains(i) by {
        if !m.queued.contains(idx) {
            if i == idx {
                assert(m.queue.push(idx)[m.queue.len() as int] == idx);
            } else {
                assert(m.queue.contains(i));
                let k = choose|k: int| 0 <= k < m.queue.len() && m.queue[k] == i;
                assert(m.queue.push(idx)[k] == i);
            }
        }
    }
}

/// Draining: the output never exceeds the batch, holds no mailbox twice,
/// holds only mailboxes that were registered, unregisters exactly what it
/// outputs, keeps the signal, removes a prefix of the queue, and keeps the
/// model well formed. A batch that covers the whole queue empties both the
/// queue and the registered set, and outputs every registered mailbox.
pub proof fn lemma_drain(m: ReadyQueueModel, n: nat)
    requires
        m.wf(),
    ensures
        ({
            let (out, post) = m.drain(n);
            &&& out.len() <= n
            &&& out.no_duplicates()
            &&& forall|i: MailboxIndex| #[trigger] out.contains(i) ==> m.queued.contains(i)
            &&& forall|i: MailboxIndex| #[trigger]
                post.queued.contains(i) <==> (m.queued.contains(i) && !out.contains(i))
            &&& post.signal_pending == m.signal_pending
            &&& post.queue.len() <= m.queue.len()
            &&& post.queue == m.queue.skip(m.queue.len() - post.queue.len())
            &&& post.wf()
            &&& (n >= m.queue.len() ==> {
                &&& post.queue.len() == 0
                &&& post.queued.is_empty()
                &&& forall|i: MailboxIndex| #[trigger] out.contains(i) <==> m.queued.contains(i)
            })
        }),
    decreases n,
{
    if n == 0 || m.queue.len() == 0 {
        let (out, post) = m.drain(n);
        assert(post.queue == m.queue.skip(0));
        if n >= m.queue.len() {
            assert forall|i: MailboxIndex| m.queued.contains(i) implies false by {
                assert(m.queue.contains(i));
            }
            assert(post.queued =~= Set::empty());
        }
    } else {
        let head = m.queue[0];
        let tail = m.queue.drop_first();
        if m.queued.contains(head) {
            let next = ReadyQueueModel { queue: tail, queued: m.queued.remove(head), ..m };
            assert forall|i: MailboxIndex| next.queued.contains(i) implies #[trigger] next.queue.contains(
                i,
            ) by {
                assert(m.queue.contains(i));
                let k = choose|k: int| 0 <= k < m.queue.len() && m.queue[k] == i;
                assert(k != 0);
                assert(tail[k - 1] == i);
            }
            lemma_drain(next, (n - 1) as nat);
            let (rest, post) = next.drain((n - 1) as nat);
            let out = seq![head] + rest;
            assert(m.drain(n) == (out, post));
            assert forall|i: MailboxIndex| #[trigger] out.contains(i) implies m.queued.contains(i) by {
                if i != head {
                    let k = choose|k: int| 0 <= k < out.len() && out[k] == i;
                    assert(rest[k - 1] == i);
                    assert(rest.contains(i));
                }
            }
            assert forall|i: MailboxIndex| #[trigger]
                post.queued.contains(i) <==> (m.queued.contains(i) && !out.contains(i)) by {
                if out.contains(i) && i != head {
                    let k = choose|k: int| 0 <= k < out.len() && out[k] == i;
                    assert(rest[k - 1] == i);
                }
                if rest.contains(i) {
                    let k = choose|k: int| 0 <= k < rest.len() && rest[k] == i;
                    assert(out[k + 1] == i);
                }
                assert(out[0] == head);
            }
            assert(!rest.contains(head));
            assert forall|a: int, b: int| 0 <= a < out.len() && 0 <= b < out.len() && a != b implies out[a]
                != out[b] by {
                if a == 0 {
                    assert(rest[b - 1] == out[b]);
                } else if b == 0 {
                    assert(rest[a - 1] == out[a]);
                } else {
                    assert(rest[a - 1] == out[a]);
                    assert(rest[b - 1] == out[b]);
                }
            }
            assert(post.queue =~= m.queue.skip(m.queue.len() - post.queue.len()));
            if n >= m.queue.len() {
                assert forall|i: MailboxIndex| #[trigger] out.contains(i) <==> m.queued.contains(i) by {
                    if m.queued.contains(i) && !out.contains(i) {
                        assert(post.queued.contains(i));
                    }
                }
            }
        } else {
            let next = ReadyQueueModel { queue: tail, ..m };
            assert forall|i: MailboxIndex| next.queued.contains(i) implies #[trigger] next.queue.contains(
                i,
            ) by {
                assert(m.queue.contains(i));
                let k = choose|k: int| 0 <= k < m.queue.len() && m.queue[k] == i;
                assert(k != 0);
                assert(tail[k - 1] == i);
            }
            lemma_drain(next, (n - 1) as nat);
            let (out, post) = next.drain((n - 1) as nat);
            assert(m.drain(n) == (out, post));
            assert(post.queue =~= m.queue.skip(m.queue.len() - post.queue.len()));
        }
    }
}

/// Registering a mailbox twice has the effect of registering it once.
pub proof fn lemma_register_idempotent(m: ReadyQueueModel, idx: MailboxIndex)
    ensures
        m.register(idx).register(idx) == m.register(idx),
{
}

/// Unregistering a mailbox that is not registered changes nothing.
pub proof fn lemma_unregister_absent_noop(m: ReadyQueueModel, idx: MailboxIndex)
    requires
        !m.queued.contains(idx),
    ensures
        m.unregister(idx) == m,
{
    assert(m.queued.remove(idx) =~= m.queued);
}

/// An unregistered mailbox is never handed out by the next drain.
pub proof fn lemma_unregistered_not_drained(m: ReadyQueueModel, idx: MailboxIndex, n: nat)
    requires
        m.wf(),
    ensures
        !m.unregister(idx).drain(n).0.contains(idx),
{
    lemma_register_unregister_wf(m, idx);
    lemma_drain(m.unregister(idx), n);
}

/// A registered mailbox is handed out by a drain whose batch covers the
/// whole queue, exactly once.
pub proof fn lemma_registered_drained(m: ReadyQueueModel, idx: MailboxIndex, n: nat)
    requires
        m.wf(),
        n >= m.register(idx).queue.len(),
    ensures
        m.register(idx).drain(n).0.contains(idx),
        m.register(idx).drain(n).1.queued.is_empty(),
{
    lemma_register_unregister_wf(m, idx);
    lemma_drain(m.register(idx), n);
}

/// Registering a mailbox that was not registered raises the signal; a poll
/// reports it once, and a second poll without registrations in between
/// reports nothing.
pub proof fn lemma_signal_once(m: ReadyQueueModel, idx: MailboxIndex)
    requires
        !m.queued.contains(idx),
    ensures
        m.register(idx).poll_signal().0,
        !m.register(idx).poll_signal().1.poll_signal().0,
{
}

/// Outcomes that ask for re-scheduling act as a registration; a failure
/// with a retry delay unregisters and schedules a retry; all others act as
/// an unregistration.
pub proof fn lemma_handle_invoke_result(m: ReadyQueueModel, idx: MailboxIndex, result: InvokeResult)
    ensures
        reregisters(result) ==> m.handle_invoke_result(idx, result) == m.register(idx),
        !reregisters(result) && !(result matches InvokeResult::Failed { retry_after: Some(_), .. })
            ==> m.handle_invoke_result(idx, result) == m.unregister(idx),
        m.handle_invoke_result(idx, InvokeResult::Yielded) == m.register(idx),
        m.handle_invoke_result(idx, InvokeResult::Stopped) == m.unregister(idx),
{
}

/// Registering a sequence of mailboxes keeps the model well formed and
/// leaves each of them registered.
pub proof fn lemma_register_all(m: ReadyQueueModel, idxs: Seq<MailboxIndex>)
    requires
        m.wf(),
    ensures
        m.register_all(idxs).wf(),
        forall|i: MailboxIndex| #[trigger] idxs.contains(i) ==> m.register_all(idxs).queued.contains(i),
        forall|i: MailboxIndex| #[trigger] m.queued.contains(i) ==> m.register_all(idxs).queued.contains(i),
        m.register_all(idxs).retries == m.retries,
        m.register_all(idxs).clock == m.clock,
    decreases idxs.len(),
{
    if idxs.len() > 0 {
        let prev = m.register_all(idxs.drop_last());
        lemma_register_all(m, idxs.drop_last());
        lemma_register_unregister_wf(prev, idxs.last());
        assert forall|i: MailboxIndex| #[trigger] idxs.contains(i) implies m.register_all(idxs).queued.contains(i) by {
            let t = choose|t: int| 0 <= t < idxs.len() && idxs[t] == i;
            if t < idxs.len() - 1 {
                assert(idxs.drop_last()[t] == i);
                assert(idxs.drop_last().contains(i));
            }
        }
    }
}


/// The mailbox of every retry due at `now` is among the due mailboxes.
pub proof fn lemma_due_retries_contains(r: Seq<(MailboxIndex, u64)>, now: u64)
    ensures
        forall|k: int| 0 <= k < r.len() && (#[trigger] r[k]).1 <= now ==> due_retries(r, now).contains(r[k].0),
    decreases r.len(),
{
    if r.len() > 0 {
        lemma_due_retries_contains(r.drop_last(), now);
        let rest = due_retries(r.drop_last(), now);
        assert forall|k: int| 0 <= k < r.len() && (#[trigger] r[k]).1 <= now implies due_retries(r, now).contains(
            r[k].0,
        ) by {
            if k == r.len() - 1 {
                assert(due_retries(r, now) == rest.push(r[k].0));
                assert(rest.push(r[k].0)[rest.len() as int] == r[k].0);
            } else {
                assert(r.drop_last()[k] == r[k]);
                let t = choose|t: int| 0 <= t < rest.len() && rest[t] == r[k].0;
                if r.last().1 <= now {
                    assert(rest.push(r.last().0)[t] == r[k].0);
                }
            }
        }
    }
}

/// Without a clock reading, every scheduled retry registers its mailbox at
/// once and none stays scheduled.
pub proof fn lemma_release_registers_all(m: ReadyQueueModel)
    requires
        m.wf(),
    ensures
        m.release_retries().retries.len() == 0,
        forall|k: int| 0 <= k < m.retries.len() ==> m.release_retries().queued.contains(#[trigger] m.retries[k].0),
        m.release_retries().wf(),
{
    lemma_due_retries_contains(m.retries, u64::MAX);
    let base = ReadyQueueModel { retries: Seq::empty(), ..m };
    lemma_register_all(base, due_retries(m.retries, u64::MAX));
    assert forall|k: int| 0 <= k < m.retries.len() implies m.release_retries().queued.contains(
        #[trigger] m.retries[k].0,
    ) by {
        assert(m.retries[k].1 <= u64::MAX);
        assert(due_retries(m.retries, u64::MAX).contains(m.retries[k].0));
    }
}

/// A failure with a retry delay schedules a retry: once the clock reaches
/// the delay's end, counted from the last clock reading, processing the
/// retries registers the mailbox again; before, the retry stays scheduled.
pub proof fn lemma_failure_retried(
    m: ReadyQueueModel,
    idx: MailboxIndex,
    error: String,
    delay: crate::coordinator_types::Delay,
    now: u64,
)
    requires
        m.wf(),
    ensures
        ({
            let failed = m.handle_invoke_result(idx, InvokeResult::Failed { error, retry_after: Some(delay) });
            let due = due_time(m.clock, delay.nanos());
            &&& !failed.queued.contains(idx)
            &&& failed.retries == m.retries.push((idx, due))
            &&& now >= due ==> failed.process_retries(now).queued.contains(idx)
            &&& now < due ==> failed.process_retries(now).retries.contains((idx, due))
        }),
{
    let failed = m.handle_invoke_result(idx, InvokeResult::Failed { error, retry_after: Some(delay) });
    let due = due_time(m.clock, delay.nanos());
    let r = failed.retries;
    lemma_register_unregister_wf(m, idx);
    assert(r.drop_last() =~= m.retries);
    let base = ReadyQueueModel { retries: later_retries(r, now), clock: now, ..failed };
    if now >= due {
        assert(due_retries(r, now) == due_retries(m.retries, now).push(idx));
        lemma_register_all(base, due_retries(r, now));
        assert(due_retries(r, now).contains(idx)) by {
            assert(due_retries(r, now)[due_retries(r, now).len() - 1] == idx);
        }
    } else {
        assert(later_retries(r, now) == later_retries(m.retries, now).push((idx, due)));
        lemma_register_all(base, due_retries(r, now));
        assert(later_retries(r, now)[later_retries(r, now).len() - 1] == (idx, due));
    }
}

/// Two drains in a row hand out disjoint sets of mailboxes.
pub proof fn lemma_consecutive_drains_disjoint(m: ReadyQueueModel, n1: nat, n2: nat)
    requires
        m.wf(),
    ensures
        ({
            let (out1, mid) = m.drain(n1);
            let (out2, _) = mid.drain(n2);
            forall|i: MailboxIndex| #[trigger] out1.contains(i) ==> !out2.contains(i)
        }),
{
    lemma_drain(m, n1);
    let (out1, mid) = m.drain(n1);
    lemma_drain(mid, n2);
}

/// When every queue entry is registered and none is repeated, a drain hands
/// out the queue's entries in order, up to the batch size.
pub proof fn lemma_drain_fifo(m: ReadyQueueModel, n: nat)
    requires
        m.queue.no_duplicates(),
        forall|i: MailboxIndex| #[trigger] m.queue.contains(i) ==> m.queued.contains(i),
    ensures
        m.drain(n).0 == m.queue.take(if n < m.queue.len() { n as int } else { m.queue.len() as int }),
    decreases n,
{
    if n == 0 || m.queue.len() == 0 {
        assert(m.queue.take(0) =~= Seq::<MailboxIndex>::empty());
    } else {
        let head = m.queue[0];
        assert(m.queue.contains(head));
        let next = ReadyQueueModel { queue: m.queue.drop_first(), queued: m.queued.remove(head), ..m };
        assert forall|i: MailboxIndex| #[trigger] next.queue.contains(i) implies next.queued.contains(i) by {
            let k = choose|k: int| 0 <= k < next.queue.len() && next.queue[k] == i;
            assert(m.queue[k + 1] == i);
            assert(m.queue.contains(i));
            assert(i != head);
        }
        lemma_drain_fifo(next, (n - 1) as nat);
        let k: int = if n < m.queue.len() { n as int } else { m.queue.len() as int };
        assert(seq![head] + next.queue.take(k - 1) =~= m.queue.take(k));
    }
}

} // verus!
