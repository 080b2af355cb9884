//! Ready queue of actor indices with queued and running flags, used by the
//! ready-queue workers to hand out each actor to at most one worker.

use std::collections::VecDeque;
use vstd::prelude::*;

verus! {

/// Abstract state of the ready queue.
pub struct ReadyStateModel {
    /// Indices in the order in which they were enqueued.
    pub queue: Seq<usize>,
    /// Indices that wait in the queue.
    pub queued: Set<usize>,
    /// Indices that a worker is processing.
    pub running: Set<usize>,
}

impl ReadyStateModel {
    /// Nothing queued, nothing running.
    pub open spec fn empty() -> Self {
        ReadyStateModel { queue: Seq::empty(), queued: Set::empty(), running: Set::empty() }
    }

    /// No index is queued and running at once, and each queued index has an
    /// entry in the queue.
    pub open spec fn wf(self) -> bool {
        &&& forall|i: usize| self.queued.contains(i) ==> !self.running.contains(i)
        &&& forall|i: usize| self.queued.contains(i) ==> #[trigger] self.queue.contains(i)
        &&& forall|k: int| 0 <= k < self.queue.len() ==> #[trigger] self.queue[k] < usize::MAX
    }

    /// Enqueues `index` unless it is running or queued already; reports
    /// whether it was enqueued.
    pub open spec fn enqueue_if_idle(self, index: usize) -> (Self, bool) {
        if self.running.contains(index) || self.queued.contains(index) {
            (self, false)
        } else {
            (ReadyStateModel { queue: self.queue.push(index), queued: self.queued.insert(index), ..self }, true)
        }
    }

    /// Marks `index` as running; it no longer counts as queued.
    pub open spec fn mark_running(self, index: usize) -> Self {
        ReadyStateModel { running: self.running.insert(index), queued: self.queued.remove(index), ..self }
    }

    /// Marks `index` as idle and enqueues it again when it has pending
    /// messages.
    pub open spec fn mark_idle(self, index: usize, has_pending: bool) -> Self {
        let idle = ReadyStateModel { running: self.running.remove(index), ..self };
        if has_pending {
            idle.enqueue_if_idle(index).0
        } else {
            idle
        }
    }

    /// Takes the first entry of the queue; it no longer counts as queued.
    pub open spec fn pop_front(self) -> (Self, Option<usize>) {
        if self.queue.len() == 0 {
            (self, None)
        } else {
            let i = self.queue[0];
            (ReadyStateModel { queue: self.queue.drop_first(), queued: self.queued.remove(i), ..self }, Some(i))
        }
    }
}

/// No index waits twice in the queue, and an index counts as queued exactly
/// when it waits in the queue.
pub open spec fn exact(m: ReadyStateModel) -> bool {
    &&& m.queue.no_duplicates()
    &&& forall|i: usize| #[trigger] m.queued.contains(i) <==> m.queue.contains(i)
}

/// Enqueuing, taking the front, marking idle, and marking running an index
/// that is not queued keep the queue exact: however often an index is
/// enqueued, it waits in the queue at most once.
pub proof fn lemma_ready_state_exact(m: ReadyStateModel, index: usize, has_pending: bool)
    requires
        exact(m),
    ensures
        exact(m.enqueue_if_idle(index).0),
        exact(m.pop_front().0),
        exact(m.mark_idle(index, has_pending)),
        !m.queued.contains(index) ==> exact(m.mark_running(index)),
{
    let e = m.enqueue_if_idle(index).0;
    if !(m.running.contains(index) || m.queued.contains(index)) {
        assert forall|a: int, b: int| 0 <= a < b < e.queue.len() implies e.queue[a] != e.queue[b] by {
            if b == m.queue.len() {
                assert(m.queue[a] != index) by {
                    assert(m.queue.contains(m.queue[a]));
                }
            }
        }
        assert forall|i: usize| #[trigger] e.queued.contains(i) <==> e.queue.contains(i) by {
            if i == index {
                assert(e.queue[m.queue.len() as int] == index);
            } else if e.queue.contains(i) {
                let t = choose|t: int| 0 <= t < e.queue.len() && e.queue[t] == i;
                assert(m.queue[t] == i);
            } else if m.queue.contains(i) {
                let t = choose|t: int| 0 <= t < m.queue.len() && m.queue[t] == i;
                assert(e.queue[t] == i);
            }
        }
    }
    if m.queue.len() > 0 {
        let p = m.pop_front().0;
        let h = m.queue[0];
        assert forall|i: usize| #[trigger] p.queued.contains(i) <==> p.queue.contains(i) by {
            if p.queue.contains(i) {
                let t = choose|t: int| 0 <= t < p.queue.len() && p.queue[t] == i;
                assert(m.queue[t + 1] == i);
                assert(m.queue.contains(i));
            }
            if i != h && m.queue.contains(i) {
                let t = choose|t: int| 0 <= t < m.queue.len() && m.queue[t] == i;
                assert(t != 0);
                assert(p.queue[t - 1] == i);
            }
        }
    }
    let idle = ReadyStateModel { running: m.running.remove(index), ..m };
    assert(exact(idle));
    if has_pending {
        let i2 = idle.enqueue_if_idle(index).0;
        if !(idle.running.contains(index) || idle.queued.contains(index)) {
            assert forall|a: int, b: int| 0 <= a < b < i2.queue.len() implies i2.queue[a] != i2.queue[b] by {
                if b == idle.queue.len() {
                    assert(idle.queue[a] != index) by {
                        assert(idle.queue.contains(idle.queue[a]));
                    }
                }
            }
            assert forall|i: usize| #[trigger] i2.queued.contains(i) <==> i2.queue.contains(i) by {
                if i == index {
                    assert(i2.queue[idle.queue.len() as int] == index);
                } else if i2.queue.contains(i) {
                    let t = choose|t: int| 0 <= t < i2.queue.len() && i2.queue[t] == i;
                    assert(idle.queue[t] == i);
                } else if idle.queue.contains(i) {
                    let t = choose|t: int| 0 <= t < idle.queue.len() && idle.queue[t] == i;
                    assert(i2.queue[t] == i);
                }
            }
        }
    }
    if !m.queued.contains(index) {
        let r = m.mark_running(index);
        assert forall|i: usize| #[trigger] r.queued.contains(i) <==> r.queue.contains(i) by {
            if i == index {
                assert(!m.queue.contains(index));
            }
        }
    }
}

/// Every operation keeps the ready queue well formed: no index is queued
/// and running at once, and each queued index has a queue entry.
pub proof fn lemma_ready_state_wf(m: ReadyStateModel, index: usize, has_pending: bool)
    requires
        m.wf(),
        index < usize::MAX,
    ensures
        m.enqueue_if_idle(index).0.wf(),
        m.mark_running(index).wf(),
        (ReadyStateModel { running: m.running.remove(index), ..m }).wf(),
        m.mark_idle(index, has_pending).wf(),
        m.pop_front().0.wf(),
{
    let e = m.enqueue_if_idle(index).0;
    assert forall|i: usize| e.queued.contains(i) implies #[trigger] e.queue.contains(i) by {
        if !(m.running.contains(index) || m.queued.contains(index)) {
            if i == index {
                assert(e.queue[m.queue.len() as int] == index);
            } else {
                assert(m.queue.contains(i));
                let k = choose|k: int| 0 <= k < m.queue.len() && m.queue[k] == i;
                assert(e.queue[k] == i);
            }
        }
    }
    let idle = ReadyStateModel { running: m.running.remove(index), ..m };
    let e2 = idle.enqueue_if_idle(index).0;
    assert forall|i: usize| e2.queued.contains(i) implies #[trigger] e2.queue.contains(i) by {
        if !(idle.running.contains(index) || idle.queued.contains(index)) {
            if i == index {
                assert(e2.queue[m.queue.len() as int] == index);
            } else {
                assert(m.queue.contains(i));
                let k = choose|k: int| 0 <= k < m.queue.len() && m.queue[k] == i;
                assert(e2.queue[k] == i);
            }
        }
    }
    assert forall|k: int| 0 <= k < e.queue.len() implies #[trigger] e.queue[k] < usize::MAX by {
        if k < m.queue.len() {
            assert(e.queue[k] == m.queue[k]);
        }
    }
    assert forall|k: int| 0 <= k < e2.queue.len() implies #[trigger] e2.queue[k] < usize::MAX by {
        if k < m.queue.len() {
            assert(e2.queue[k] == m.queue[k]);
        }
    }
    if m.queue.len() > 0 {
        let p = m.pop_front().0;
        assert forall|k: int| 0 <= k < p.queue.len() implies #[trigger] p.queue[k] < usize::MAX by {
            assert(p.queue[k] == m.queue[k + 1]);
        }
        assert forall|i: usize| p.queued.contains(i) implies #[trigger] p.queue.contains(i) by {
            assert(m.queue.contains(i));
            let k = choose|k: int| 0 <= k < m.queue.len() && m.queue[k] == i;
            assert(k != 0);
            assert(p.queue[k - 1] == i);
        }
    }
}

/// Ready queue of actor indices with per-index queued and running flags.
pub struct ReadyQueueState {
    queue: VecDeque<usize>,
    queued: Vec<bool>,
    running: Vec<bool>,
}

impl View for ReadyQueueState {
    type V = ReadyStateModel;

    closed spec fn view(&self) -> ReadyStateModel {
        ReadyStateModel {
            queue: self.queue@,
            queued: Set::new(|i: usize| i < self.queued@.len() && self.queued@[i as int]),
            running: Set::new(|i: usize| i < self.running@.len() && self.running@[i as int]),
        }
    }
}

impl ReadyQueueState {
    /// The queue is well formed.
    pub open spec fn wf(&self) -> bool {
        self@.wf()
    }

    /// Number of indices covered by the flag vectors.
    pub closed spec fn capacity(&self) -> nat {
        if self.queued@.len() <= self.running@.len() {
            self.queued@.len()
        } else {
            self.running@.len()
        }
    }

    /// An empty ready queue.
    pub fn new() -> (s: Self)
        ensures
            s.wf(),
            s@ == ReadyStateModel::empty(),
    {
        let s = ReadyQueueState { queue: VecDeque::new(), queued: Vec::new(), running: Vec::new() };
        assert(s@.queued =~= Set::empty());
        assert(s@.running =~= Set::empty());
        s
    }

    /// Grows the flag vectors to cover `len` indices; the flags of new
    /// indices are clear, and the model does not change.
    pub fn ensure_capacity(&mut self, len: usize)
        ensures
            final(self)@ == old(self)@,
            final(self).capacity() >= len,
            final(self).capacity() >= old(self).capacity(),
    {
        let ghost before = self@;
        let ghost q0 = self.queued.len();
        let ghost r0 = self.running.len();
        while self.queued.len() < len
            invariant
                self@ == before,
                self.queued.len() >= q0,
                self.running.len() == r0,
            decreases len - self.queued.len(),
        {
            self.queued.push(false);
            assert(self@.queued =~= before.queued);
        }
        while self.running.len() < len
            invariant
                self@ == before,
                self.queued.len() >= len,
                self.queued.len() >= q0,
                self.running.len() >= r0,
            decreases len - self.running.len(),
        {
            self.running.push(false);
            assert(self@.running =~= before.running);
        }
    }

    /// Enqueues `index` unless it is running or queued already; returns
    /// whether it was enqueued.
    pub fn enqueue_if_idle(&mut self, index: usize) -> (enqueued: bool)
        requires
            old(self).wf(),
            index < usize::MAX,
        ensures
            final(self).wf(),
            (final(self)@, enqueued) == old(self)@.enqueue_if_idle(index),
            final(self).capacity() > index,
            final(self).capacity() >= old(self).capacity(),
    {
        let ghost before = self@;
        self.ensure_capacity(index + 1);
        if self.running[index] || self.queued[index] {
            return false;
        }
        self.queue.push_back(index);
        self.queued.set(index, true);
        assert(self@.queued =~= before.queued.insert(index));
        assert(self@.running =~= before.running);
        proof {
            lemma_ready_state_wf(before, index, false);
        }
        true
    }

    /// Marks `index` as running; it no longer counts as queued.
    pub fn mark_running(&mut self, index: usize)
        requires
            old(self).wf(),
            index < usize::MAX,
        ensures
            final(self).wf(),
            final(self)@ == old(self)@.mark_running(index),
            final(self).capacity() > index,
            final(self).capacity() >= old(self).capacity(),
    {
        let ghost before = self@;
        self.ensure_capacity(index + 1);
        self.running.set(index, true);
        if index < self.queued.len() {
            self.queued.set(index, false);
        }
        assert(self@.running =~= before.running.insert(index));
        assert(self@.queued =~= before.queued.remove(index));
        proof {
            lemma_ready_state_wf(before, index, false);
        }
    }

    /// Marks `index` as idle and enqueues it again when it has pending
    /// messages.
    pub fn mark_idle(&mut self, index: usize, has_pending: bool)
        requires
            old(self).wf(),
            index < usize::MAX,
        ensures
            final(self).wf(),
            final(self)@ == old(self)@.mark_idle(index, has_pending),
            final(self).capacity() > index,
            final(self).capacity() >= old(self).capacity(),
    {
        let ghost before = self@;
        self.ensure_capacity(index + 1);
        self.running.set(index, false);
        assert(self@.running =~= before.running.remove(index));
        assert(self@.queued =~= before.queued);
        proof {
            lemma_ready_state_wf(before, index, has_pending);
        }
        let _ = if has_pending {
            self.enqueue_if_idle(index)
        } else {
            false
        };
    }

    /// Takes the first entry of the queue; it no longer counts as queued.
    pub fn pop_front(&mut self) -> (index: Option<usize>)
        requires
            old(self).wf(),
        ensures
            final(self).wf(),
            (final(self)@, index) == old(self)@.pop_front(),
    {
        let ghost before = self@;
        match self.queue.pop_front() {
            Some(index) => {
                if index < self.queued.len() {
                    self.queued.set(index, false);
                }
                assert(self@.queue =~= before.queue.drop_first());
                assert(self@.queued =~= before.queued.remove(index));
                assert(self@.running =~= before.running);
                proof {
                    assert(before.queue[0] < usize::MAX);
                    lemma_ready_state_wf(before, index, false);
                }
                Some(index)
            },
            None => None,
        }
    }

    /// Takes the next ready index and marks it running.
    pub fn dequeue_ready(&mut self) -> (index: Option<usize>)
        requires
            old(self).wf(),
        ensures
            final(self).wf(),
            index == old(self)@.pop_front().1,
            final(self)@ == (match index {
                Some(i) => old(self)@.pop_front().0.mark_running(i),
                None => old(self)@,
            }),
    {
        let ghost before = self@;
        match self.pop_front() {
            Some(index) => {
                assert(before.queue[0] < usize::MAX);
                self.mark_running(index);
                Some(index)
            },
            None => None,
        }
    }
}

} // verus!
