//! Ready-queue coordinators: they remember which mailboxes are ready, hand
//! them out in batches, and turn invocation outcomes into re-registrations.

use std::collections::{HashSet, VecDeque};
use vstd::prelude::*;

use crate::coordinator_types::{reregisters, InvokeResult};
use crate::mailbox_index::{lemma_key_injective, MailboxIndex};
use crate::ready_model::{
    later_retries, lemma_drain, lemma_register_unregister_wf, ReadyQueueModel,
};
use crate::retry_schedule::RetrySchedule;

verus! {

broadcast use {vstd::std_specs::hash::group_hash_axioms, lemma_key_injective};

/// Queue, registered set, signal flag and scheduled retries shared by the
/// default coordinators.
pub struct CoordinatorState {
    queue: VecDeque<MailboxIndex>,
    queued: HashSet<u64>,
    signal_pending: bool,
    retries: RetrySchedule,
}

impl CoordinatorState {
    /// The state as a [`ReadyQueueModel`]; the registered set holds the
    /// mailboxes whose key is in the hash set.
    pub closed spec fn model(&self) -> ReadyQueueModel {
        ReadyQueueModel {
            queue: self.queue@,
            queued: Set::new(|i: MailboxIndex| self.queued@.contains(i.key_spec())),
            signal_pending: self.signal_pending,
            retries: self.retries.entries(),
            clock: self.retries.clock(),
        }
    }

    /// Every registered mailbox has an entry in the queue.
    pub open spec fn wf(&self) -> bool {
        self.model().wf()
    }

    /// An empty state: nothing queued, no signal pending.
    pub fn new() -> (s: Self)
        ensures
            s.wf(),
            s.model() == ReadyQueueModel::empty(),
    {
        let s = CoordinatorState {
            queue: VecDeque::new(),
            queued: HashSet::new(),
            signal_pending: false,
            retries: RetrySchedule::new(),
        };
        assert(s.model().queued =~= Set::empty());
        assert(s.model().queue =~= Seq::empty());
        s
    }

    /// Registers `idx` unless it is registered already.
    pub fn register_ready(&mut self, idx: MailboxIndex)
        requires
            old(self).wf(),
        ensures
            final(self).wf(),
            final(self).model() == old(self).model().register(idx),
    {
        let ghost before = self.model();
        let key = idx.key();
        if self.queued.insert(key) {
            self.queue.push_back(idx);
            self.signal_pending = true;
            assert(self.model().queued =~= before.queued.insert(idx));
        } else {
            assert(self.model().queued =~= before.queued);
        }
        proof {
            lemma_register_unregister_wf(before, idx);
        }
    }

    /// Unregisters `idx`; its queue entries are skipped when drained.
    pub fn unregister(&mut self, idx: MailboxIndex)
        requires
            old(self).wf(),
        ensures
            final(self).wf(),
            final(self).model() == old(self).model().unregister(idx),
    {
        let ghost before = self.model();
        let key = idx.key();
        self.queued.remove(&key);
        assert(self.model().queued =~= before.queued.remove(idx));
        proof {
            lemma_register_unregister_wf(before, idx);
        }
    }

    /// Clears `out` and fills it with at most `max_batch` ready mailboxes.
    pub fn drain_ready_cycle(&mut self, max_batch: usize, out: &mut Vec<MailboxIndex>)
        requires
            old(self).wf(),
        ensures
            final(self).wf(),
            (final(out)@, final(self).model()) == old(self).model().drain(max_batch as nat),
    {
        let ghost start = self.model();
        out.clear();
        let mut i: usize = 0;
        while i < max_batch
            invariant
                i <= max_batch,
                self.wf(),
                start.drain(max_batch as nat) == (
                    out@ + self.model().drain((max_batch - i) as nat).0,
                    self.model().drain((max_batch - i) as nat).1,
                ),
            ensures
                self.wf(),
                start.drain(max_batch as nat) == (
                    out@ + self.model().drain((max_batch - i) as nat).0,
                    self.model().drain((max_batch - i) as nat).1,
                ),
                i == max_batch || self.model().queue.len() == 0,
            decreases max_batch - i,
        {
            let ghost cur = self.model();
            let ghost out_before = out@;
            match self.queue.pop_front() {
                Some(idx) => {
                    let key = idx.key();
                    if self.queued.contains(&key) {
                        out.push(idx);
                        self.queued.remove(&key);
                        assert(self.model().queued =~= cur.queued.remove(idx));
                        assert(self.model().queue =~= cur.queue.drop_first());
                        assert(out@ =~= out_before + seq![idx]);
                        let ghost nxt = ReadyQueueModel {
                            queue: cur.queue.drop_first(),
                            queued: cur.queued.remove(idx),
                            ..cur
                        };
                        assert(self.model() == nxt);
                        assert(out_before + cur.drain((max_batch - i) as nat).0 =~= out@ + nxt.drain(
                            (max_batch - i - 1) as nat,
                        ).0);
                    } else {
                        assert(self.model().queued =~= cur.queued);
                        assert(self.model().queue =~= cur.queue.drop_first());
                    }
                    proof {
                        reveal_with_fuel(ReadyQueueModel::drain, 2);
                        lemma_drain(cur, 1);
                        assert(cur.drain(1).1 == self.model());
                    }
                },
                None => {
                    break ;
                },
            }
            i += 1;
        }
        if i < max_batch {
            assert(self.model().drain((max_batch - i) as nat).0 =~= Seq::<MailboxIndex>::empty());
            assert(out@ + Seq::<MailboxIndex>::empty() =~= out@);
        } else {
            assert(out@ + self.model().drain(0).0 =~= out@);
        }
    }

    /// Reports and clears the pending signal.
    pub fn poll_wait_signal(&mut self) -> (ready: bool)
        requires
            old(self).wf(),
        ensures
            final(self).wf(),
            (ready, final(self).model()) == old(self).model().poll_signal(),
    {
        let ghost before = self.model();
        if self.signal_pending {
            self.signal_pending = false;
            assert(self.model().queued =~= before.queued);
            assert(self.model() == ReadyQueueModel { signal_pending: false, ..before });
            true
        } else {
            false
        }
    }

    /// Registers `idx` again after a completion with the ready hint or a
    /// yield; unregisters it after any other outcome, and schedules a retry
    /// after a failure with a retry delay.
    pub fn handle_invoke_result(&mut self, idx: MailboxIndex, result: InvokeResult)
        requires
            old(self).wf(),
        ensures
            final(self).wf(),
            final(self).model() == old(self).model().handle_invoke_result(idx, result),
    {
        match result {
            InvokeResult::Completed { ready_hint: true } => {
                self.register_ready(idx);
            },
            InvokeResult::Completed { ready_hint: false }
            | InvokeResult::Suspended { .. }
            | InvokeResult::Stopped => {
                self.unregister(idx);
            },
            InvokeResult::Yielded => {
                self.register_ready(idx);
            },
            InvokeResult::Failed { retry_after, .. } => {
                self.unregister(idx);
                match retry_after {
                    Some(delay) => {
                        self.retries.schedule(idx, &delay);
                    },
                    None => {},
                }
            },
        }
    }

    /// Registers each of `idxs`, in order.
    fn register_each(&mut self, idxs: &Vec<MailboxIndex>)
        requires
            old(self).wf(),
        ensures
            final(self).wf(),
            final(self).model() == old(self).model().register_all(idxs@),
    {
        let ghost before = self.model();
        let mut i: usize = 0;
        assert(idxs@.take(0) =~= Seq::<MailboxIndex>::empty());
        while i < idxs.len()
            invariant
                i <= idxs.len(),
                self.wf(),
                self.model() == before.register_all(idxs@.take(i as int)),
            decreases idxs.len() - i,
        {
            assert(idxs@.take(i + 1).drop_last() =~= idxs@.take(i as int));
            assert(idxs@.take(i + 1).last() == idxs[i as int]);
            self.register_ready(idxs[i]);
            i += 1;
        }
        assert(idxs@.take(i as int) =~= idxs@);
    }

    /// Takes the clock reading `now`: registers the mailboxes of the retries
    /// due at `now`, in order, and keeps the others scheduled.
    pub fn process_retries(&mut self, now: u64)
        requires
            old(self).wf(),
        ensures
            final(self).wf(),
            final(self).model() == old(self).model().process_retries(now),
    {
        let ghost before = self.model();
        let due = self.retries.take_due(now);
        assert(self.model() =~= ReadyQueueModel { retries: later_retries(before.retries, now), clock: now, ..before });
        self.register_each(&due);
    }

    /// Without a clock reading: registers the mailboxes of all scheduled
    /// retries at once, in order.
    pub fn release_retries(&mut self)
        requires
            old(self).wf(),
        ensures
            final(self).wf(),
            final(self).model() == old(self).model().release_retries(),
    {
        let ghost before = self.model();
        let all = self.retries.take_all();
        assert(self.model() =~= ReadyQueueModel { retries: Seq::empty(), ..before });
        self.register_each(&all);
    }
}

/// Ready-queue coordination: registering and unregistering mailboxes,
/// draining ready candidates, polling the signal and handling invocation
/// outcomes. Every operation is stated over [`ReadyQueueModel`].
pub trait ReadyQueueCoordinator {
    /// The coordinator's queue, registered set and signal flag.
    spec fn ready_model(&self) -> ReadyQueueModel;

    /// The throughput the coordinator was created with.
    spec fn throughput_view(&self) -> usize;

    /// The coordinator's internal invariant.
    spec fn well_formed(&self) -> bool;

    /// A well-formed coordinator has a well-formed model.
    proof fn lemma_well_formed_model(&self)
        requires
            self.well_formed(),
        ensures
            self.ready_model().wf(),
    ;

    /// Registers a mailbox as ready for processing; a mailbox that is
    /// registered already is not queued twice.
    fn register_ready(&mut self, idx: MailboxIndex)
        requires
            old(self).well_formed(),
        ensures
            final(self).well_formed(),
            final(self).ready_model() == old(self).ready_model().register(idx),
            final(self).throughput_view() == old(self).throughput_view(),
    ;

    /// Unregisters a mailbox from the ready queue.
    fn unregister(&mut self, idx: MailboxIndex)
        requires
            old(self).well_formed(),
        ensures
            final(self).well_formed(),
            final(self).ready_model() == old(self).ready_model().unregister(idx),
            final(self).throughput_view() == old(self).throughput_view(),
    ;

    /// Clears `out` and fills it with at most `max_batch` ready mailboxes.
    fn drain_ready_cycle(&mut self, max_batch: usize, out: &mut Vec<MailboxIndex>)
        requires
            old(self).well_formed(),
        ensures
            final(self).well_formed(),
            (final(out)@, final(self).ready_model()) == old(self).ready_model().drain(
                max_batch as nat,
            ),
            final(self).throughput_view() == old(self).throughput_view(),
    ;

    /// Returns `true` and clears the signal when a mailbox was newly
    /// registered since the last poll; `false` otherwise.
    fn poll_wait_signal(&mut self) -> (ready: bool)
        requires
            old(self).well_formed(),
        ensures
            final(self).well_formed(),
            (ready, final(self).ready_model()) == old(self).ready_model().poll_signal(),
            final(self).throughput_view() == old(self).throughput_view(),
    ;

    /// Registers the mailbox again after a completion with the ready hint or
    /// a yield; unregisters it after a suspension, a stop, a failure or a
    /// completion without the hint; a failure with a retry delay also
    /// schedules a retry, due that delay after the last clock reading.
    fn handle_invoke_result(&mut self, idx: MailboxIndex, result: InvokeResult)
        requires
            old(self).well_formed(),
        ensures
            final(self).well_formed(),
            final(self).ready_model() == old(self).ready_model().handle_invoke_result(idx, result),
            final(self).throughput_view() == old(self).throughput_view(),
    ;

    /// Takes the clock reading `now`, in nanoseconds: the mailboxes of the
    /// retries due at `now` are registered again, in order; the other
    /// retries stay scheduled.
    fn process_retries(&mut self, now: u64)
        requires
            old(self).well_formed(),
        ensures
            final(self).well_formed(),
            final(self).ready_model() == old(self).ready_model().process_retries(now),
            final(self).throughput_view() == old(self).throughput_view(),
    ;

    /// Without a clock reading: the mailboxes of all scheduled retries are
    /// registered again at once, in order, the way a delay without a clock
    /// ends at once.
    fn release_retries(&mut self)
        requires
            old(self).well_formed(),
        ensures
            final(self).well_formed(),
            final(self).ready_model() == old(self).ready_model().release_retries(),
            final(self).throughput_view() == old(self).throughput_view(),
    ;

    /// Messages per invocation the invoker should process at most.
    fn throughput_hint(&self) -> (t: usize)
        ensures
            t == self.throughput_view(),
    ;
}

/// The ready-queue coordination interface for coordinators that are shared
/// through a handle; the operations and their contracts are those of
/// [`ReadyQueueCoordinator`].
pub trait ReadyQueueCoordinatorV2 {
    /// The coordinator's queue, registered set and signal flag.
    spec fn ready_model(&self) -> ReadyQueueModel;

    /// The throughput the coordinator was created with.
    spec fn throughput_view(&self) -> usize;

    /// The coordinator's internal invariant.
    spec fn well_formed(&self) -> bool;

    /// A well-formed coordinator has a well-formed model.
    proof fn lemma_well_formed_model(&self)
        requires
            self.well_formed(),
        ensures
            self.ready_model().wf(),
    ;

    /// Registers a mailbox as ready; duplicate registrations are ignored.
    fn register_ready(&mut self, idx: MailboxIndex)
        requires
            old(self).well_formed(),
        ensures
            final(self).well_formed(),
            final(self).ready_model() == old(self).ready_model().register(idx),
            final(self).throughput_view() == old(self).throughput_view(),
    ;

    /// Unregisters a mailbox; a no-op when it is not registered.
    fn unregister(&mut self, idx: MailboxIndex)
        requires
            old(self).well_formed(),
        ensures
            final(self).well_formed(),
            final(self).ready_model() == old(self).ready_model().unregister(idx),
            final(self).throughput_view() == old(self).throughput_view(),
    ;

    /// Clears `out` and fills it with at most `max_batch` ready mailboxes.
    fn drain_ready_cycle(&mut self, max_batch: usize, out: &mut Vec<MailboxIndex>)
        requires
            old(self).well_formed(),
        ensures
            final(self).well_formed(),
            (final(out)@, final(self).ready_model()) == old(self).ready_model().drain(
                max_batch as nat,
            ),
            final(self).throughput_view() == old(self).throughput_view(),
    ;

    /// Returns `true` and clears the signal when one is pending.
    fn poll_wait_signal(&mut self) -> (ready: bool)
        requires
            old(self).well_formed(),
        ensures
            final(self).well_formed(),
            (ready, final(self).ready_model()) == old(self).ready_model().poll_signal(),
            final(self).throughput_view() == old(self).throughput_view(),
    ;

    /// Re-registers or unregisters the mailbox according to the outcome, and
    /// schedules a retry after a failure with a retry delay.
    fn handle_invoke_result(&mut self, idx: MailboxIndex, result: InvokeResult)
        requires
            old(self).well_formed(),
        ensures
            final(self).well_formed(),
            final(self).ready_model() == old(self).ready_model().handle_invoke_result(idx, result),
            final(self).throughput_view() == old(self).throughput_view(),
    ;

    /// Takes the clock reading `now`, in nanoseconds: the mailboxes of the
    /// retries due at `now` are registered again, in order; the other
    /// retries stay scheduled.
    fn process_retries(&mut self, now: u64)
        requires
            old(self).well_formed(),
        ensures
            final(self).well_formed(),
            final(self).ready_model() == old(self).ready_model().process_retries(now),
            final(self).throughput_view() == old(self).throughput_view(),
    ;

    /// Without a clock reading: the mailboxes of all scheduled retries are
    /// registered again at once, in order, the way a delay without a clock
    /// ends at once.
    fn release_retries(&mut self)
        requires
            old(self).well_formed(),
        ensures
            final(self).well_formed(),
            final(self).ready_model() == old(self).ready_model().release_retries(),
            final(self).throughput_view() == old(self).throughput_view(),
    ;

    /// Messages per invocation the invoker should process at most.
    fn throughput_hint(&self) -> (t: usize)
        ensures
            t == self.throughput_view(),
    ;
}

/// Default coordinator: a queue with duplicate detection and a signal flag.
pub struct DefaultReadyQueueCoordinator {
    state: CoordinatorState,
    throughput: usize,
}

impl DefaultReadyQueueCoordinator {
    /// Creates a coordinator with the given throughput hint.
    pub fn new(throughput: usize) -> (c: Self)
        ensures
            c.well_formed(),
            c.ready_model() == ReadyQueueModel::empty(),
            c.throughput_view() == throughput,
    {
        DefaultReadyQueueCoordinator { state: CoordinatorState::new(), throughput }
    }
}

impl ReadyQueueCoordinator for DefaultReadyQueueCoordinator {
    closed spec fn ready_model(&self) -> ReadyQueueModel {
        self.state.model()
    }

    closed spec fn throughput_view(&self) -> usize {
        self.throughput
    }

    closed spec fn well_formed(&self) -> bool {
        self.state.wf()
    }

    proof fn lemma_well_formed_model(&self) {
    }

    fn register_ready(&mut self, idx: MailboxIndex) {
        self.state.register_ready(idx);
    }

    fn unregister(&mut self, idx: MailboxIndex) {
        self.state.unregister(idx);
    }

    fn drain_ready_cycle(&mut self, max_batch: usize, out: &mut Vec<MailboxIndex>) {
        self.state.drain_ready_cycle(max_batch, out);
    }

    fn poll_wait_signal(&mut self) -> (ready: bool) {
        self.state.poll_wait_signal()
    }

    fn handle_invoke_result(&mut self, idx: MailboxIndex, result: InvokeResult) {
        self.state.handle_invoke_result(idx, result);
    }

    fn process_retries(&mut self, now: u64) {
        self.state.process_retries(now);
    }

    fn release_retries(&mut self) {
        self.state.release_retries();
    }

    fn throughput_hint(&self) -> (t: usize) {
        self.throughput
    }
}

/// Default coordinator for shared use (V2): the same queue with duplicate
/// detection and signal flag.
pub struct DefaultReadyQueueCoordinatorV2 {
    state: CoordinatorState,
    throughput: usize,
}

impl DefaultReadyQueueCoordinatorV2 {
    /// Creates a coordinator with the given throughput hint.
    pub fn new(throughput: usize) -> (c: Self)
        ensures
            c.well_formed(),
            c.ready_model() == ReadyQueueModel::empty(),
            c.throughput_view() == throughput,
    {
        DefaultReadyQueueCoordinatorV2 { state: CoordinatorState::new(), throughput }
    }
}

impl ReadyQueueCoordinatorV2 for DefaultReadyQueueCoordinatorV2 {
    closed spec fn ready_model(&self) -> ReadyQueueModel {
        self.state.model()
    }

    closed spec fn throughput_view(&self) -> usize {
        self.throughput
    }

    closed spec fn well_formed(&self) -> bool {
        self.state.wf()
    }

    proof fn lemma_well_formed_model(&self) {
    }

    fn register_ready(&mut self, idx: MailboxIndex) {
        self.state.register_ready(idx);
    }

    fn unregister(&mut self, idx: MailboxIndex) {
        self.state.unregister(idx);
    }

    fn drain_ready_cycle(&mut self, max_batch: usize, out: &mut Vec<MailboxIndex>) {
        self.state.drain_ready_cycle(max_batch, out);
    }

    fn poll_wait_signal(&mut self) -> (ready: bool) {
        self.state.poll_wait_signal()
    }

    fn handle_invoke_result(&mut self, idx: MailboxIndex, result: InvokeResult) {
        self.state.handle_invoke_result(idx, result);
    }

    fn process_retries(&mut self, now: u64) {
        self.state.process_retries(now);
    }

    fn release_retries(&mut self) {
        self.state.release_retries();
    }

    fn throughput_hint(&self) -> (t: usize) {
        self.throughput
    }
}

/// Adaptive coordinator: selects the coordinator implementation; the only
/// one available is [`DefaultReadyQueueCoordinatorV2`].
pub struct AdaptiveCoordinator(DefaultReadyQueueCoordinatorV2);

impl AdaptiveCoordinator {
    /// The default shared-use coordinator the adaptive one selected.
    pub closed spec fn selected(&self) -> DefaultReadyQueueCoordinatorV2 {
        self.0
    }

    /// The adaptive coordinator is the default shared-use coordinator it
    /// selected: its state, throughput and invariant are that coordinator's.
    /// As both types state each operation over the same function of that
    /// state, the same calls on an adaptive coordinator and on a default
    /// shared-use coordinator in the same state give the same results.
    pub proof fn lemma_adaptive_is_default(&self)
        ensures
            self.ready_model() == self.selected().ready_model(),
            self.throughput_view() == self.selected().throughput_view(),
            self.well_formed() == self.selected().well_formed(),
    {
    }

    /// Creates an adaptive coordinator; the concurrency hint does not
    /// influence the choice.
    pub fn new(throughput: usize, _concurrency_hint: usize) -> (c: Self)
        ensures
            c.well_formed(),
            c.ready_model() == ReadyQueueModel::empty(),
            c.throughput_view() == throughput,
    {
        AdaptiveCoordinator(DefaultReadyQueueCoordinatorV2::new(throughput))
    }

    /// Creates a coordinator with explicit implementation selection; the
    /// lock-free selection is not available here.
    pub fn with_strategy(throughput: usize, use_lockfree: bool) -> (c: Self)
        requires
            !use_lockfree,
        ensures
            c.well_formed(),
            c.ready_model() == ReadyQueueModel::empty(),
            c.throughput_view() == throughput,
    {
        AdaptiveCoordinator(DefaultReadyQueueCoordinatorV2::new(throughput))
    }
}

impl ReadyQueueCoordinatorV2 for AdaptiveCoordinator {
    closed spec fn ready_model(&self) -> ReadyQueueModel {
        self.0.ready_model()
    }

    closed spec fn throughput_view(&self) -> usize {
        self.0.throughput_view()
    }

    closed spec fn well_formed(&self) -> bool {
        self.0.well_formed()
    }

    proof fn lemma_well_formed_model(&self) {
    }

    fn register_ready(&mut self, idx: MailboxIndex) {
        self.0.register_ready(idx);
    }

    fn unregister(&mut self, idx: MailboxIndex) {
        self.0.unregister(idx);
    }

    fn drain_ready_cycle(&mut self, max_batch: usize, out: &mut Vec<MailboxIndex>) {
        self.0.drain_ready_cycle(max_batch, out);
    }

    fn poll_wait_signal(&mut self) -> (ready: bool) {
        self.0.poll_wait_signal()
    }

    fn handle_invoke_result(&mut self, idx: MailboxIndex, result: InvokeResult) {
        self.0.handle_invoke_result(idx, result);
    }

    fn process_retries(&mut self, now: u64) {
        self.0.process_retries(now);
    }

    fn release_retries(&mut self) {
        self.0.release_retries();
    }

    fn throughput_hint(&self) -> (t: usize) {
        self.0.throughput_hint()
    }
}

} // verus!
