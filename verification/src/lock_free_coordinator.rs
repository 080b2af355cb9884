//! Coordinators built on concurrent collections: a segmented queue of
//! ready mailboxes (`crossbeam_queue::SegQueue`) and a concurrent set for
//! duplicate detection (`dashmap::DashSet`).

use crossbeam_queue::SegQueue;
use dashmap::DashSet;
use vstd::prelude::*;

use crate::coordinator::{ReadyQueueCoordinator, ReadyQueueCoordinatorV2};
use crate::coordinator_types::InvokeResult;
use crate::mailbox_index::MailboxIndex;
use crate::ready_model::{later_retries, lemma_drain, lemma_register_unregister_wf, ReadyQueueModel};
use crate::retry_schedule::RetrySchedule;

verus! {

/// The segmented queue of `crossbeam_queue`.
#[verifier::external_type_specification]
#[verifier::external_body]
#[verifier::reject_recursive_types(T)]
pub struct ExSegQueue<T>(SegQueue<T>);

/// The concurrent hash set of `dashmap`.
#[verifier::external_type_specification]
#[verifier::external_body]
#[verifier::reject_recursive_types(K)]
#[verifier::reject_recursive_types(S)]
pub struct ExDashSet<K, S>(DashSet<K, S>);

/// The entries of a segmented queue of (slot, generation) pairs, head first.
pub uninterp spec fn seg_queue_items(q: SegQueue<(u32, u32)>) -> Seq<(u32, u32)>;

/// The members of a concurrent set of (slot, generation) pairs.
pub uninterp spec fn dash_set_items(s: DashSet<(u32, u32)>) -> Set<(u32, u32)>;

/// Calls `SegQueue::new`; claims the new queue is empty.
#[verifier::external_body]
fn seg_queue_new() -> (q: SegQueue<(u32, u32)>)
    ensures
        seg_queue_items(q) == Seq::<(u32, u32)>::empty(),
{
    SegQueue::new()
}

/// Calls `SegQueue::push`; claims the value is appended at the tail.
#[verifier::external_body]
fn seg_queue_push(q: &mut SegQueue<(u32, u32)>, value: (u32, u32))
    ensures
        seg_queue_items(*final(q)) == seg_queue_items(*old(q)).push(value),
{
    q.push(value)
}

/// Calls `SegQueue::pop`; claims it returns and removes the head entry, or
/// `None` and no change when the queue is empty.
#[verifier::external_body]
fn seg_queue_pop(q: &mut SegQueue<(u32, u32)>) -> (r: Option<(u32, u32)>)
    ensures
        match r {
            Some(x) => {
                &&& seg_queue_items(*old(q)).len() > 0
                &&& x == seg_queue_items(*old(q))[0]
                &&& seg_queue_items(*final(q)) == seg_queue_items(*old(q)).drop_first()
            },
            None => {
                &&& seg_queue_items(*old(q)).len() == 0
                &&& seg_queue_items(*final(q)) == seg_queue_items(*old(q))
            },
        },
{
    q.pop()
}

/// Calls `DashSet::new`; claims the new set is empty.
#[verifier::external_body]
fn dash_set_new() -> (s: DashSet<(u32, u32)>)
    ensures
        dash_set_items(s) == Set::<(u32, u32)>::empty(),
{
    DashSet::new()
}

/// Calls `DashSet::insert`; claims the key is added and the result tells
/// whether it was absent before.
#[verifier::external_body]
fn dash_set_insert(s: &mut DashSet<(u32, u32)>, key: (u32, u32)) -> (inserted: bool)
    ensures
        dash_set_items(*final(s)) == dash_set_items(*old(s)).insert(key),
        inserted == !dash_set_items(*old(s)).contains(key),
{
    s.insert(key)
}

/// Calls `DashSet::remove`; claims the key is removed and returned when it
/// was present, and `None` is returned otherwise.
#[verifier::external_body]
fn dash_set_remove(s: &mut DashSet<(u32, u32)>, key: (u32, u32)) -> (removed: Option<(u32, u32)>)
    ensures
        dash_set_items(*final(s)) == dash_set_items(*old(s)).remove(key),
        removed == (if dash_set_items(*old(s)).contains(key) {
            Some(key)
        } else {
            None
        }),
{
    s.remove(&key)
}

/// The (slot, generation) pair of a mailbox index.
pub open spec fn pair_of(idx: MailboxIndex) -> (u32, u32) {
    (idx.slot, idx.generation)
}

/// The mailbox index of a (slot, generation) pair.
pub open spec fn index_of(p: (u32, u32)) -> MailboxIndex {
    MailboxIndex { slot: p.0, generation: p.1 }
}

/// Queue, registered set, signal flag and scheduled retries of the
/// lock-free coordinators.
pub struct LockFreeState {
    queue: SegQueue<(u32, u32)>,
    queued: DashSet<(u32, u32)>,
    signal_pending: bool,
    retries: RetrySchedule,
}

impl LockFreeState {
    /// The state as a [`ReadyQueueModel`].
    pub closed spec fn model(&self) -> ReadyQueueModel {
        ReadyQueueModel {
            queue: seg_queue_items(self.queue).map_values(|p: (u32, u32)| index_of(p)),
            queued: Set::new(|i: MailboxIndex| dash_set_items(self.queued).contains(pair_of(i))),
            signal_pending: self.signal_pending,
            retries: self.retries.entries(),
            clock: self.retries.clock(),
        }
    }

    /// Every registered mailbox has an entry in the queue.
    pub open spec fn wf(&self) -> bool {
        self.model().wf()
    }

    /// An empty state.
    pub fn new() -> (s: Self)
        ensures
            s.wf(),
            s.model() == ReadyQueueModel::empty(),
    {
        let s = LockFreeState {
            queue: seg_queue_new(),
            queued: dash_set_new(),
            signal_pending: false,
            retries: RetrySchedule::new(),
        };
        assert(s.model().queue =~= Seq::empty());
        assert(s.model().queued =~= Set::empty());
        s
    }

    /// Registers `idx` unless it is registered already.
    pub fn register_ready(&mut self, idx: MailboxIndex)
        requires
            old(self).wf(),
        ensures
            final(self).wf(),
            final(self).model() == old(self).model().register(idx),
    {
        let ghost before = self.model();
        if dash_set_insert(&mut self.queued, (idx.slot, idx.generation)) {
            let ghost q0 = seg_queue_items(self.queue);
            seg_queue_push(&mut self.queue, (idx.slot, idx.generation));
            self.signal_pending = true;
            assert(self.model().queue =~= before.queue.push(idx));
            assert(self.model().queued =~= before.queued.insert(idx));
        } else {
            assert(self.model().queued =~= before.queued);
        }
        proof {
            lemma_register_unregister_wf(before, idx);
        }
    }

    /// Unregisters `idx`; its queue entries are skipped when drained.
    pub fn unregister(&mut self, idx: MailboxIndex)
        requires
            old(self).wf(),
        ensures
            final(self).wf(),
            final(self).model() == old(self).model().unregister(idx),
    {
        let ghost before = self.model();
        let _ = dash_set_remove(&mut self.queued, (idx.slot, idx.generation));
        assert(self.model().queued =~= before.queued.remove(idx));
        proof {
            lemma_register_unregister_wf(before, idx);
        }
    }

    /// Clears `out` and fills it with at most `max_batch` ready mailboxes.
    pub fn drain_ready_cycle(&mut self, max_batch: usize, out: &mut Vec<MailboxIndex>)
        requires
            old(self).wf(),
        ensures
            final(self).wf(),
            (final(out)@, final(self).model()) == old(self).model().drain(max_batch as nat),
    {
        let ghost start = self.model();
        out.clear();
        let mut i: usize = 0;
        while i < max_batch
            invariant
                i <= max_batch,
                self.wf(),
                start.drain(max_batch as nat) == (
                    out@ + self.model().drain((max_batch - i) as nat).0,
                    self.model().drain((max_batch - i) as nat).1,
                ),
            ensures
                self.wf(),
                start.drain(max_batch as nat) == (
                    out@ + self.model().drain((max_batch - i) as nat).0,
                    self.model().drain((max_batch - i) as nat).1,
                ),
                i == max_batch || self.model().queue.len() == 0,
            decreases max_batch - i,
        {
            let ghost cur = self.model();
            let ghost out_before = out@;
            match seg_queue_pop(&mut self.queue) {
                Some(p) => {
                    let idx = MailboxIndex::new(p.0, p.1);
                    assert(idx == cur.queue[0]);
                    assert(self.model().queue =~= cur.queue.drop_first());
                    match dash_set_remove(&mut self.queued, p) {
                        Some(_) => {
                            out.push(idx);
                            assert(self.model().queued =~= cur.queued.remove(idx));
                            assert(out@ =~= out_before + seq![idx]);
                            let ghost nxt = ReadyQueueModel {
                                queue: cur.queue.drop_first(),
                                queued: cur.queued.remove(idx),
                                ..cur
                            };
                            assert(self.model() == nxt);
                            assert(out_before + cur.drain((max_batch - i) as nat).0 =~= out@ + nxt.drain(
                                (max_batch - i - 1) as nat,
                            ).0);
                        },
                        None => {
                            assert(self.model().queued =~= cur.queued);
                        },
                    }
                    proof {
                        reveal_with_fuel(ReadyQueueModel::drain, 2);
                        lemma_drain(cur, 1);
                        assert(cur.drain(1).1 == self.model());
                    }
                },
                None => {
                    assert(self.model().queue =~= cur.queue);
                    break ;
                },
            }
            i += 1;
        }
        if i < max_batch {
            assert(self.model().drain((max_batch - i) as nat).0 =~= Seq::<MailboxIndex>::empty());
            assert(out@ + Seq::<MailboxIndex>::empty() =~= out@);
        } else {
            assert(out@ + self.model().drain(0).0 =~= out@);
        }
    }

    /// Reports and clears the pending signal.
    pub fn poll_wait_signal(&mut self) -> (ready: bool)
        requires
            old(self).wf(),
        ensures
            final(self).wf(),
            (ready, final(self).model()) == old(self).model().poll_signal(),
    {
        let ghost before = self.model();
        if self.signal_pending {
            self.signal_pending = false;
            assert(self.model().queued =~= before.queued);
            assert(self.model() == ReadyQueueModel { signal_pending: false, ..before });
            true
        } else {
            false
        }
    }

    /// Registers `idx` again after a completion with the ready hint or a
    /// yield; unregisters it after any other outcome, and schedules a retry
    /// after a failure with a retry delay.
    pub fn handle_invoke_result(&mut self, idx: MailboxIndex, result: InvokeResult)
        requires
            old(self).wf(),
        ensures
            final(self).wf(),
            final(self).model() == old(self).model().handle_invoke_result(idx, result),
    {
        match result {
            InvokeResult::Completed { ready_hint: true } => {
                self.register_ready(idx);
            },
            InvokeResult::Completed { ready_hint: false }
            | InvokeResult::Suspended { .. }
            | InvokeResult::Stopped => {
                self.unregister(idx);
            },
            InvokeResult::Yielded => {
                self.register_ready(idx);
            },
            InvokeResult::Failed { retry_after, .. } => {
                self.unregister(idx);
                match retry_after {
                    Some(delay) => {
                        self.retries.schedule(idx, &delay);
                    },
                    None => {},
                }
            },
        }
    }

    /// Registers each of `idxs`, in order.
    fn register_each(&mut self, idxs: &Vec<MailboxIndex>)
        requires
            old(self).wf(),
        ensures
            final(self).wf(),
            final(self).model() == old(self).model().register_all(idxs@),
    {
        let ghost before = self.model();
        let mut i: usize = 0;
        assert(idxs@.take(0) =~= Seq::<MailboxIndex>::empty());
        while i < idxs.len()
            invariant
                i <= idxs.len(),
                self.wf(),
                self.model() == before.register_all(idxs@.take(i as int)),
            decreases idxs.len() - i,
        {
            assert(idxs@.take(i + 1).drop_last() =~= idxs@.take(i as int));
            assert(idxs@.take(i + 1).last() == idxs[i as int]);
            self.register_ready(idxs[i]);
            i += 1;
        }
        assert(idxs@.take(i as int) =~= idxs@);
    }

    /// Takes the clock reading `now`: registers the mailboxes of the retries
    /// due at `now`, in order, and keeps the others scheduled.
    pub fn process_retries(&mut self, now: u64)
        requires
            old(self).wf(),
        ensures
            final(self).wf(),
            final(self).model() == old(self).model().process_retries(now),
    {
        let ghost before = self.model();
        let due = self.retries.take_due(now);
        assert(self.model() =~= ReadyQueueModel { retries: later_retries(before.retries, now), clock: now, ..before });
        self.register_each(&due);
    }

    /// Without a clock reading: registers the mailboxes of all scheduled
    /// retries at once, in order.
    pub fn release_retries(&mut self)
        requires
            old(self).wf(),
        ensures
            final(self).wf(),
            final(self).model() == old(self).model().release_retries(),
    {
        let ghost before = self.model();
        let all = self.retries.take_all();
        assert(self.model() =~= ReadyQueueModel { retries: Seq::empty(), ..before });
        self.register_each(&all);
    }
}

/// Coordinator on a segmented queue and a concurrent set.
pub struct LockFreeCoordinator {
    state: LockFreeState,
    throughput: usize,
}

impl LockFreeCoordinator {
    /// Creates a coordinator with the given throughput hint.
    pub fn new(throughput: usize) -> (c: Self)
        ensures
            c.well_formed(),
            c.ready_model() == ReadyQueueModel::empty(),
            c.throughput_view() == throughput,
    {
        LockFreeCoordinator { state: LockFreeState::new(), throughput }
    }
}

impl ReadyQueueCoordinator for LockFreeCoordinator {
    closed spec fn ready_model(&self) -> ReadyQueueModel {
        self.state.model()
    }

    closed spec fn throughput_view(&self) -> usize {
        self.throughput
    }

    closed spec fn well_formed(&self) -> bool {
        self.state.wf()
    }

    proof fn lemma_well_formed_model(&self) {
    }

    fn register_ready(&mut self, idx: MailboxIndex) {
        self.state.register_ready(idx);
    }

    fn unregister(&mut self, idx: MailboxIndex) {
        self.state.unregister(idx);
    }

    fn drain_ready_cycle(&mut self, max_batch: usize, out: &mut Vec<MailboxIndex>) {
        self.state.drain_ready_cycle(max_batch, out);
    }

    fn poll_wait_signal(&mut self) -> (ready: bool) {
        self.state.poll_wait_signal()
    }

    fn handle_invoke_result(&mut self, idx: MailboxIndex, result: InvokeResult) {
        self.state.handle_invoke_result(idx, result);
    }

    fn process_retries(&mut self, now: u64) {
        self.state.process_retries(now);
    }

    fn release_retries(&mut self) {
        self.state.release_retries();
    }

    fn throughput_hint(&self) -> (t: usize) {
        self.throughput
    }
}

/// Coordinator on a segmented queue and a concurrent set, for shared use
/// (V2).
pub struct LockFreeCoordinatorV2 {
    state: LockFreeState,
    throughput: usize,
}

impl LockFreeCoordinatorV2 {
    /// Creates a coordinator with the given throughput hint.
    pub fn new(throughput: usize) -> (c: Self)
        ensures
            c.well_formed(),
            c.ready_model() == ReadyQueueModel::empty(),
            c.throughput_view() == throughput,
    {
        LockFreeCoordinatorV2 { state: LockFreeState::new(), throughput }
    }
}

impl ReadyQueueCoordinatorV2 for LockFreeCoordinatorV2 {
    closed spec fn ready_model(&self) -> ReadyQueueModel {
        self.state.model()
    }

    closed spec fn throughput_view(&self) -> usize {
        self.throughput
    }

    closed spec fn well_formed(&self) -> bool {
        self.state.wf()
    }

    proof fn lemma_well_formed_model(&self) {
    }

    fn register_ready(&mut self, idx: MailboxIndex) {
        self.state.register_ready(idx);
    }

    fn unregister(&mut self, idx: MailboxIndex) {
        self.state.unregister(idx);
    }

    fn drain_ready_cycle(&mut self, max_batch: usize, out: &mut Vec<MailboxIndex>) {
        self.state.drain_ready_cycle(max_batch, out);
    }

    fn poll_wait_signal(&mut self) -> (ready: bool) {
        self.state.poll_wait_signal()
    }

    fn handle_invoke_result(&mut self, idx: MailboxIndex, result: InvokeResult) {
        self.state.handle_invoke_result(idx, result);
    }

    fn process_retries(&mut self, now: u64) {
        self.state.process_retries(now);
    }

    fn release_retries(&mut self) {
        self.state.release_retries();
    }

    fn throughput_hint(&self) -> (t: usize) {
        self.throughput
    }
}

} // verus!
