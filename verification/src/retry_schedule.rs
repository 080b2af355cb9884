//! Retries scheduled after failed invocations: each names a mailbox and the
//! clock reading at which it is registered again.

use vstd::prelude::*;

use crate::coordinator_types::Delay;
use crate::mailbox_index::MailboxIndex;
use crate::ready_model::{due_retries, later_retries};
use crate::suspend_registry::{due_after, due_time};

verus! {

/// The scheduled retries of a coordinator and the last clock reading it
/// was given.
pub struct RetrySchedule {
    entries: Vec<(MailboxIndex, u64)>,
    clock: u64,
}

impl RetrySchedule {
    /// The scheduled retries, in the order they were scheduled.
    pub closed spec fn entries(&self) -> Seq<(MailboxIndex, u64)> {
        self.entries@
    }

    /// The last clock reading, in nanoseconds.
    pub closed spec fn clock(&self) -> u64 {
        self.clock
    }

    /// No retries, clock reading 0.
    pub fn new() -> (s: Self)
        ensures
            s.entries() == Seq::<(MailboxIndex, u64)>::empty(),
            s.clock() == 0,
    {
        RetrySchedule { entries: Vec::new(), clock: 0 }
    }

    /// Schedules a retry of `idx`, due `delay` after the last clock reading.
    pub fn schedule(&mut self, idx: MailboxIndex, delay: &Delay)
        ensures
            final(self).entries() == old(self).entries().push((idx, due_time(old(self).clock(), delay.nanos()))),
            final(self).clock() == old(self).clock(),
    {
        let due = due_after(self.clock, delay.as_nanos());
        self.entries.push((idx, due));
    }

    /// Takes the clock reading `now`; returns the mailboxes of the retries
    /// due at `now`, in order, and keeps the others.
    pub fn take_due(&mut self, now: u64) -> (due: Vec<MailboxIndex>)
        ensures
            due@ == due_retries(old(self).entries(), now),
            final(self).entries() == later_retries(old(self).entries(), now),
            final(self).clock() == now,
    {
        let ghost all = self.entries@;
        let mut due: Vec<MailboxIndex> = Vec::new();
        let mut keep: Vec<(MailboxIndex, u64)> = Vec::new();
        let mut i: usize = 0;
        assert(all.take(0) =~= Seq::<(MailboxIndex, u64)>::empty());
        while i < self.entries.len()
            invariant
                i <= self.entries.len(),
                self.entries@ == all,
                due@ == due_retries(all.take(i as int), now),
                keep@ == later_retries(all.take(i as int), now),
            decreases self.entries.len() - i,
        {
            let entry = self.entries[i];
            assert(all.take(i + 1).drop_last() =~= all.take(i as int));
            assert(all.take(i + 1).last() == entry);
            if entry.1 <= now {
                due.push(entry.0);
            } else {
                keep.push(entry);
            }
            i += 1;
        }
        assert(all.take(i as int) =~= all);
        self.entries = keep;
        self.clock = now;
        due
    }

    /// Takes every scheduled retry; returns their mailboxes, in order. The
    /// clock reading stays.
    pub fn take_all(&mut self) -> (all: Vec<MailboxIndex>)
        ensures
            all@ == due_retries(old(self).entries(), u64::MAX),
            final(self).entries() == Seq::<(MailboxIndex, u64)>::empty(),
            final(self).clock() == old(self).clock(),
    {
        let ghost entries = self.entries@;
        let mut out: Vec<MailboxIndex> = Vec::new();
        let mut i: usize = 0;
        assert(entries.take(0) =~= Seq::<(MailboxIndex, u64)>::empty());
        while i < self.entries.len()
            invariant
                i <= self.entries.len(),
                self.entries@ == entries,
                out@ == due_retries(entries.take(i as int), u64::MAX),
            decreases self.entries.len() - i,
        {
            let entry = self.entries[i];
            assert(entries.take(i + 1).drop_last() =~= entries.take(i as int));
            assert(entries.take(i + 1).last() == entry);
            out.push(entry.0);
            i += 1;
        }
        assert(entries.take(i as int) =~= entries);
        self.entries = Vec::new();
        out
    }
}

} // verus!
