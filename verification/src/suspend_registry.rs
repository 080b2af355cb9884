//! Bookkeeping of suspended actors: the condition each one waits for, the
//! external signals that wake them, and the deadlines at which they resume.

use std::collections::BTreeMap;
use vstd::prelude::*;

use crate::coordinator_types::{Delay, InvokeResult, ResumeCondition};
use crate::mailbox_index::SignalKey;
use crate::ordered_keys::{keys_ascending, strictly_increasing};

verus! {

broadcast use vstd::std_specs::btree::group_btree_axioms;

/// `s` without any occurrence of `x`; the other elements keep their order.
pub open spec fn without(s: Seq<usize>, x: usize) -> Seq<usize>
    decreases s.len(),
{
    if s.len() == 0 {
        s
    } else {
        let rest = without(s.drop_last(), x);
        if s.last() == x {
            rest
        } else {
            rest.push(s.last())
        }
    }
}

/// `k` is the smallest signal key that maps to `index`.
pub open spec fn is_least_key_for(signals: Map<u64, usize>, index: usize, k: u64) -> bool {
    &&& signals.contains_key(k)
    &&& signals[k] == index
    &&& forall|k2: u64| signals.contains_key(k2) && signals[k2] == index ==> k <= k2
}

/// `k` is the earliest deadline in `d`.
pub open spec fn is_earliest(d: Map<u64, Seq<usize>>, k: u64) -> bool {
    &&& d.contains_key(k)
    &&& forall|k2: u64| d.contains_key(k2) ==> k <= k2
}

/// The time at which a delay of `nanos` nanoseconds that starts at `now`
/// ends: the delay is capped at `u64::MAX`, and the sum saturates.
pub open spec fn due_time(now: u64, nanos: u128) -> u64 {
    let delta: int = if nanos > u64::MAX { u64::MAX as int } else { nanos as int };
    if now + delta > u64::MAX {
        u64::MAX
    } else {
        (now + delta) as u64
    }
}

/// Computes [`due_time`].
pub fn due_after(now: u64, nanos: u128) -> (due: u64)
    ensures
        due == due_time(now, nanos),
{
    let delta: u64 = if nanos > 0xffff_ffff_ffff_ffffu128 {
        u64::MAX
    } else {
        nanos as u64
    };
    now.saturating_add(delta)
}

/// Removes, earliest first, the deadlines that are due at `now`; returns
/// the indices registered under them, in that order, and the remaining
/// deadlines.
pub open spec fn take_due(d: Map<u64, Seq<usize>>, now: u64) -> (Seq<usize>, Map<u64, Seq<usize>>)
    decreases d.dom().len(),
{
    if d.dom().finite() && exists|k: u64| is_earliest(d, k) && k <= now {
        let k = choose|k: u64| is_earliest(d, k) && k <= now;
        let (rest, remaining) = take_due(d.remove(k), now);
        (d[k] + rest, remaining)
    } else {
        (Seq::empty(), d)
    }
}

/// Abstract state of the suspension bookkeeping.
pub struct SuspendModel {
    /// Actor index to the condition it waits for.
    pub conditions: Map<usize, ResumeCondition>,
    /// Signal key to the actor index it wakes.
    pub signals: Map<u64, usize>,
    /// Deadline to the actor indices that resume at it, in registration order.
    pub deadlines: Map<u64, Seq<usize>>,
}

impl SuspendModel {
    /// No actor suspended.
    pub open spec fn empty() -> Self {
        SuspendModel { conditions: Map::empty(), signals: Map::empty(), deadlines: Map::empty() }
    }

    /// Removes the smallest signal key that maps to `index`, if there is one.
    pub open spec fn remove_signal_mapping(self, index: usize) -> Self {
        if exists|k: u64| is_least_key_for(self.signals, index, k) {
            let k = choose|k: u64| is_least_key_for(self.signals, index, k);
            SuspendModel { signals: self.signals.remove(k), ..self }
        } else {
            self
        }
    }

    /// Removes `index` from every deadline list, dropping lists that become
    /// empty.
    pub open spec fn remove_deadline_entry(self, index: usize) -> Self {
        SuspendModel {
            deadlines: Map::new(
                |due: u64|
                    self.deadlines.contains_key(due) && (!self.deadlines[due].contains(index) || without(
                        self.deadlines[due],
                        index,
                    ).len() > 0),
                |due: u64|
                    if self.deadlines[due].contains(index) {
                        without(self.deadlines[due], index)
                    } else {
                        self.deadlines[due]
                    },
            ),
            ..self
        }
    }

    /// Forgets the condition of `index`, one signal mapping to it and its
    /// deadline entries.
    pub open spec fn clear(self, index: usize) -> Self {
        SuspendModel { conditions: self.conditions.remove(index), ..self }.remove_signal_mapping(
            index,
        ).remove_deadline_entry(index)
    }

    /// Resumes `index` when it is suspended: clears its state and reports
    /// `true`; otherwise changes nothing and reports `false`.
    pub open spec fn resume(self, index: usize) -> (Self, bool) {
        if self.conditions.contains_key(index) {
            (self.clear(index), true)
        } else {
            (self, false)
        }
    }

    /// Registers `index` to resume `nanos` nanoseconds after `now`; without a
    /// clock reading the actor resumes at once.
    pub open spec fn register_deadline(self, index: usize, nanos: u128, now: Option<u64>) -> (
        Self,
        bool,
    ) {
        match now {
            None => self.resume(index),
            Some(n) => {
                let due = due_time(n, nanos);
                let prev = if self.deadlines.contains_key(due) {
                    self.deadlines[due]
                } else {
                    Seq::empty()
                };
                (SuspendModel { deadlines: self.deadlines.insert(due, prev.push(index)), ..self }, false)
            },
        }
    }

    /// Records an invocation outcome: a suspension stores its condition and
    /// registers the signal or the deadline, or resumes at once when it waits
    /// for capacity; any other outcome clears the actor's state. An `After`
    /// delay is due its length in nanoseconds after `now`. Reports whether
    /// the actor resumed.
    pub open spec fn update(self, index: usize, result: InvokeResult, now: Option<u64>) -> (
        Self,
        bool,
    ) {
        match result {
            InvokeResult::Suspended { resume_on, .. } => {
                let m = SuspendModel { conditions: self.conditions.insert(index, resume_on), ..self };
                match resume_on {
                    ResumeCondition::ExternalSignal(key) => (
                        SuspendModel { signals: m.signals.insert(key.0, index), ..m },
                        false,
                    ),
                    ResumeCondition::After(d) => m.register_deadline(index, d.nanos(), now),
                    ResumeCondition::WhenCapacityAvailable => m.resume(index),
                }
            },
            _ => (self.clear(index), false),
        }
    }

    /// Resumes, in order, each of `indices` that still waits for a delay.
    pub open spec fn resume_expired(self, indices: Seq<usize>) -> (Self, Seq<usize>)
        decreases indices.len(),
    {
        if indices.len() == 0 {
            (self, Seq::empty())
        } else {
            let i = indices[0];
            let waits = self.conditions.contains_key(i) && self.conditions[i] is After;
            let m1 = if waits {
                self.clear(i)
            } else {
                self
            };
            let (m2, rest) = m1.resume_expired(indices.drop_first());
            (
                m2,
                if waits {
                    seq![i] + rest
                } else {
                    rest
                },
            )
        }
    }

    /// Takes the deadlines due at `now` and resumes the actors registered
    /// under them that still wait for a delay; nothing happens without a
    /// clock reading. Returns the resumed indices in order.
    pub open spec fn process_deadlines(self, now: Option<u64>) -> (Self, Seq<usize>) {
        match now {
            None => (self, Seq::empty()),
            Some(n) => {
                let (due, remaining) = take_due(self.deadlines, n);
                SuspendModel { deadlines: remaining, ..self }.resume_expired(due)
            },
        }
    }

    /// Consumes the signal `key`: when it maps to an actor, the mapping is
    /// removed, the actor is resumed if it is suspended, and the actor's
    /// index is returned with whether it resumed.
    pub open spec fn notify(self, key: u64) -> (Self, Option<usize>, bool) {
        if self.signals.contains_key(key) {
            let i = self.signals[key];
            let (m, resumed) = SuspendModel { signals: self.signals.remove(key), ..self }.resume(i);
            (m, Some(i), resumed)
        } else {
            (self, None, false)
        }
    }
}


/// `true` when `v` holds `x`.
fn vec_contains(v: &Vec<usize>, x: usize) -> (r: bool)
    ensures
        r == v@.contains(x),
{
    let mut i: usize = 0;
    while i < v.len()
        invariant
            i <= v.len(),
            forall|t: int| 0 <= t < i ==> v@[t] != x,
        decreases v.len() - i,
    {
        if v[i] == x {
            return true;
        }
        i += 1;
    }
    false
}

/// `v` without the occurrences of `x`.
fn vec_without(v: &Vec<usize>, x: usize) -> (r: Vec<usize>)
    ensures
        r@ == without(v@, x),
{
    let mut r: Vec<usize> = Vec::new();
    let mut i: usize = 0;
    while i < v.len()
        invariant
            i <= v.len(),
            r@ == without(v@.take(i as int), x),
        decreases v.len() - i,
    {
        assert(v@.take(i + 1).drop_last() =~= v@.take(i as int));
        if v[i] != x {
            r.push(v[i]);
        }
        i += 1;
    }
    assert(v@.take(v.len() as int) =~= v@);
    r
}

/// The maps of a registry are finite.
pub proof fn lemma_view_finite(r: &SuspendRegistry)
    ensures
        r@.conditions.dom().finite(),
        r@.signals.dom().finite(),
        r@.deadlines.dom().finite(),
{
    assert(r@.deadlines.dom() =~= r.deadlines@.dom());
}

/// The suspension bookkeeping of a scheduler.
pub struct SuspendRegistry {
    conditions: BTreeMap<usize, ResumeCondition>,
    signals: BTreeMap<u64, usize>,
    deadlines: BTreeMap<u64, Vec<usize>>,
}

impl View for SuspendRegistry {
    type V = SuspendModel;

    closed spec fn view(&self) -> SuspendModel {
        SuspendModel {
            conditions: self.conditions@,
            signals: self.signals@,
            deadlines: self.deadlines@.map_values(|v: Vec<usize>| v@),
        }
    }
}

impl SuspendRegistry {
    /// An empty registry.
    pub fn new() -> (r: Self)
        ensures
            r@ == SuspendModel::empty(),
    {
        let r = SuspendRegistry {
            conditions: BTreeMap::new(),
            signals: BTreeMap::new(),
            deadlines: BTreeMap::new(),
        };
        assert(r@.deadlines =~= Map::empty());
        r
    }

    /// Whether `index` is waiting for a resume condition.
    pub fn is_suspended(&self, index: usize) -> (r: bool)
        ensures
            r == self@.conditions.contains_key(index),
    {
        self.conditions.contains_key(&index)
    }

    /// Removes the smallest signal key that maps to `index`, if any.
    pub fn remove_signal_mapping(&mut self, index: usize)
        ensures
            final(self)@ == old(self)@.remove_signal_mapping(index),
    {
        let ghost before = self@;
        let keys = keys_ascending(&self.signals);
        let mut j: usize = 0;
        let mut found: Option<u64> = None;
        while j < keys.len() && found.is_none()
            invariant
                self@ == before,
                keys@.to_set() == before.signals.dom(),
                strictly_increasing(keys@),
                j <= keys.len(),
                forall|t: int| 0 <= t < j && (found is None || t < j - 1) ==> before.signals[#[trigger] keys@[t]] != index,
                found matches Some(k) ==> (j > 0 && k == keys@[j - 1] && before.signals[k] == index),
            decreases keys.len() - j,
        {
            let k = keys[j];
            assert(keys@.to_set().contains(k));
            match self.signals.get(&k) {
                Some(v) => {
                    if *v == index {
                        found = Some(k);
                    }
                },
                None => {},
            }
            j += 1;
        }
        match found {
            Some(k) => {
                assert(is_least_key_for(before.signals, index, k)) by {
                    assert(keys@.to_set().contains(k));
                    assert forall|k2: u64| before.signals.contains_key(k2) && before.signals[k2] == index implies k <= k2 by {
                        assert(keys@.to_set().contains(k2));
                        let t = choose|t: int| 0 <= t < keys@.len() && keys@[t] == k2;
                        if t < j - 1 {
                            assert(before.signals[keys@[t]] != index);
                        } else if t > j - 1 {
                            assert(keys@[j - 1] < keys@[t]);
                        }
                    }
                }
                let ghost c = choose|c: u64| is_least_key_for(before.signals, index, c);
                assert(c == k);
                self.signals.remove(&k);
            },
            None => {
                assert forall|k: u64| !is_least_key_for(before.signals, index, k) by {
                    if before.signals.contains_key(k) && before.signals[k] == index {
                        assert(keys@.to_set().contains(k));
                        let t = choose|t: int| 0 <= t < keys@.len() && keys@[t] == k;
                        assert(before.signals[keys@[t]] != index);
                    }
                }
            },
        }
    }

    /// Removes `index` from every deadline list; lists that become empty are
    /// dropped.
    pub fn remove_deadline_entry(&mut self, index: usize)
        ensures
            final(self)@ == old(self)@.remove_deadline_entry(index),
    {
        let ghost before = self@;
        let ghost target = before.remove_deadline_entry(index).deadlines;
        let dues = keys_ascending(&self.deadlines);
        let mut j: usize = 0;
        while j < dues.len()
            invariant
                j <= dues.len(),
                target == before.remove_deadline_entry(index).deadlines,
                dues@.to_set() == before.deadlines.dom(),
                dues@.no_duplicates(),
                self@.conditions == before.conditions,
                self@.signals == before.signals,
                forall|due: u64| #[trigger] self@.deadlines.contains_key(due) ==> dues@.contains(due),
                forall|t: int| 0 <= t < j ==> (self@.deadlines.contains_key(#[trigger] dues@[t])
                    <==> target.contains_key(dues@[t])),
                forall|t: int| 0 <= t < j && target.contains_key(#[trigger] dues@[t]) ==> self@.deadlines[dues@[t]]
                    == target[dues@[t]],
                forall|t: int| j <= t < dues.len() ==> (self@.deadlines.contains_key(#[trigger] dues@[t])
                    && self@.deadlines[dues@[t]] == before.deadlines[dues@[t]]),
            decreases dues.len() - j,
        {
            let due = dues[j];
            let ghost cur = self@.deadlines;
            assert(dues@.to_set().contains(due));
            assert(before.deadlines.contains_key(due));
            assert(cur.contains_key(due) && cur[due] == before.deadlines[due]);
            assert(self.deadlines@.contains_key(due) && self.deadlines@[due]@ == cur[due]);
            let contains = match self.deadlines.get(&due) {
                Some(v) => vec_contains(v, index),
                None => false,
            };
            if contains {
                match self.deadlines.remove(&due) {
                    Some(indices) => {
                        assert(indices@ == before.deadlines[due]);
                        assert(self@.deadlines =~= cur.remove(due));
                        let kept = vec_without(&indices, index);
                        if kept.len() > 0 {
                            let ghost kv = kept@;
                            self.deadlines.insert(due, kept);
                            assert(self@.deadlines =~= cur.remove(due).insert(due, kv));
                        }
                    },
                    None => {},
                }
                assert(self@.deadlines.contains_key(due) == target.contains_key(due));
            } else {
                assert(!before.deadlines[due].contains(index));
                assert(target.contains_key(due));
            }
            assert forall|t: int| 0 <= t < dues.len() && t != j implies dues@[t] != due by {}
            assert forall|d: u64| d != due implies (self@.deadlines.contains_key(d) == cur.contains_key(d)
                && (cur.contains_key(d) ==> self@.deadlines[d] == cur[d])) by {}
            j += 1;
        }
        assert(self@.deadlines =~= target) by {
            assert forall|due: u64| self@.deadlines.contains_key(due) <==> target.contains_key(due) by {
                if self@.deadlines.contains_key(due) || target.contains_key(due) {
                    assert(dues@.contains(due));
                    let t = choose|t: int| 0 <= t < dues@.len() && dues@[t] == due;
                }
            }
            assert forall|due: u64| self@.deadlines.contains_key(due) implies self@.deadlines[due] == target[due] by {
                let t = choose|t: int| 0 <= t < dues@.len() && dues@[t] == due;
            }
        }
    }

    /// Forgets the condition of `index`, the smallest signal key that maps
    /// to it, and its deadline entries.
    pub fn clear_suspend_state(&mut self, index: usize)
        ensures
            final(self)@ == old(self)@.clear(index),
    {
        let ghost before = self@;
        self.conditions.remove(&index);
        assert(self@ == SuspendModel { conditions: before.conditions.remove(index), ..before });
        self.remove_signal_mapping(index);
        self.remove_deadline_entry(index);
    }

    /// Resumes `index` if it is suspended: clears its state and returns
    /// `true`; returns `false` and changes nothing otherwise.
    pub fn resume_actor(&mut self, index: usize) -> (resumed: bool)
        ensures
            (final(self)@, resumed) == old(self)@.resume(index),
    {
        if !self.conditions.contains_key(&index) {
            return false;
        }
        self.clear_suspend_state(index);
        true
    }

    /// Registers `index` to resume `nanos` nanoseconds after `now`; without a
    /// clock reading it resumes at once. Returns whether it resumed.
    pub fn register_deadline_nanos(&mut self, index: usize, nanos: u128, now: Option<u64>) -> (resumed: bool)
        ensures
            (final(self)@, resumed) == old(self)@.register_deadline(index, nanos, now),
    {
        match now {
            None => self.resume_actor(index),
            Some(now) => {
                let ghost before = self@;
                let due = due_after(now, nanos);
                let mut list = match self.deadlines.remove(&due) {
                    Some(v) => v,
                    None => Vec::new(),
                };
                let ghost prev = list@;
                assert(prev == if before.deadlines.contains_key(due) {
                    before.deadlines[due]
                } else {
                    Seq::empty()
                });
                list.push(index);
                let ghost pushed = list@;
                self.deadlines.insert(due, list);
                assert(self@.deadlines =~= before.deadlines.insert(due, pushed));
                false
            },
        }
    }

    /// Registers `index` to resume once `delay` has elapsed after `now`;
    /// without a clock reading it resumes at once. Returns whether it
    /// resumed.
    pub fn register_deadline(&mut self, index: usize, delay: &Delay, now: Option<u64>) -> (resumed: bool)
        ensures
            (final(self)@, resumed) == old(self)@.register_deadline(index, delay.nanos(), now),
    {
        let nanos = delay.as_nanos();
        self.register_deadline_nanos(index, nanos, now)
    }

    /// Records the outcome of an invocation of actor `index` (see
    /// [`SuspendModel::update`]); the length of an `After` delay is read
    /// from its delay. Returns whether the actor resumed.
    pub fn update_suspend_registry(&mut self, index: usize, result: &InvokeResult, now: Option<u64>) -> (resumed: bool)
        ensures
            (final(self)@, resumed) == old(self)@.update(index, *result, now),
    {
        let ghost before = self@;
        match result {
            InvokeResult::Suspended { resume_on, .. } => {
                let cond: ResumeCondition = *resume_on;
                self.conditions.insert(index, cond);
                let ghost m = SuspendModel { conditions: before.conditions.insert(index, cond), ..before };
                assert(self@ == m);
                match resume_on {
                    ResumeCondition::ExternalSignal(key) => {
                        self.signals.insert(key.0, index);
                        assert(before.update(index, *result, now).0 == self@);
                        false
                    },
                    ResumeCondition::After(delay) => {
                        let nanos = delay.as_nanos();
                        let r = self.register_deadline_nanos(index, nanos, now);
                        assert(before.update(index, *result, now) == (self@, r));
                        r
                    },
                    ResumeCondition::WhenCapacityAvailable => {
                        let r = self.resume_actor(index);
                        assert(before.update(index, *result, now) == (self@, r));
                        r
                    },
                }
            },
            _ => {
                self.clear_suspend_state(index);
                assert(before.update(index, *result, now) == (self@, false));
                false
            },
        }
    }

    /// Consumes the signal `key`: when it maps to an actor, removes the
    /// mapping and resumes the actor if it is suspended; returns the actor's
    /// index and whether it resumed.
    pub fn notify_resume_signal(&mut self, key: SignalKey) -> (r: (Option<usize>, bool))
        ensures
            (final(self)@, r.0, r.1) == old(self)@.notify(key.0),
    {
        let ghost before = self@;
        match self.signals.remove(&key.0) {
            Some(index) => {
                assert(before.signals.contains_key(key.0) && before.signals[key.0] == index);
                assert(self@ == SuspendModel { signals: before.signals.remove(key.0), ..before });
                let resumed = self.resume_actor(index);
                (Some(index), resumed)
            },
            None => {
                assert(self.signals@ =~= before.signals);
                assert(self@ == before);
                (None, false)
            },
        }
    }

    /// Takes, earliest first, the deadlines due at `now` and resumes each
    /// actor registered under them that still waits for a delay; nothing
    /// happens without a clock reading. Returns the resumed indices in
    /// order.
    pub fn process_deadlines(&mut self, now: Option<u64>) -> (resumed: Vec<usize>)
        ensures
            (final(self)@, resumed@) == old(self)@.process_deadlines(now),
    {
        let mut resumed: Vec<usize> = Vec::new();
        let now = match now {
            Some(n) => n,
            None => {
                return resumed;
            },
        };
        let ghost before = self@;
        let dues = keys_ascending(&self.deadlines);
        assert(self@.deadlines.dom() =~= self.deadlines@.dom());
        let mut due_indices: Vec<usize> = Vec::new();
        let mut j: usize = 0;
        while j < dues.len() && dues[j] <= now
            invariant
                j <= dues.len(),
                dues@.to_set() == before.deadlines.dom(),
                strictly_increasing(dues@),
                self@.conditions == before.conditions,
                self@.signals == before.signals,
                self@.deadlines.dom().finite(),
                forall|d: u64| #[trigger] self@.deadlines.contains_key(d) <==> exists|t: int|
                    j <= t < dues.len() && dues@[t] == d,
                forall|d: u64| #[trigger] self@.deadlines.contains_key(d) ==> self@.deadlines[d]
                    == before.deadlines[d],
                take_due(before.deadlines, now) == (
                    due_indices@ + take_due(self@.deadlines, now).0,
                    take_due(self@.deadlines, now).1,
                ),
            decreases dues.len() - j,
        {
            let due = dues[j];
            let ghost cur = self@.deadlines;
            assert(cur.contains_key(due));
            assert(is_earliest(cur, due)) by {
                assert forall|k2: u64| cur.contains_key(k2) implies due <= k2 by {
                    let t = choose|t: int| j <= t < dues.len() && dues@[t] == k2;
                    if t > j {
                        assert(dues@[j as int] < dues@[t]);
                    }
                }
            }
            let ghost c = choose|k: u64| is_earliest(cur, k) && k <= now;
            assert(c == due);
            let ghost di = due_indices@;
            match self.deadlines.remove(&due) {
                Some(v) => {
                    let mut v = v;
                    due_indices.append(&mut v);
                },
                None => {},
            }
            assert(self@.deadlines =~= cur.remove(due));
            assert(due_indices@ =~= di + cur[due]);
            assert(take_due(cur, now) == (cur[due] + take_due(cur.remove(due), now).0, take_due(
                cur.remove(due),
                now,
            ).1));
            assert(di + (cur[due] + take_due(cur.remove(due), now).0) =~= due_indices@ + take_due(
                cur.remove(due),
                now,
            ).0);
            assert forall|d: u64| #[trigger] self@.deadlines.contains_key(d) <==> exists|t: int|
                j + 1 <= t < dues.len() && dues@[t] == d by {
                if self@.deadlines.contains_key(d) {
                    let t = choose|t: int| j <= t < dues.len() && dues@[t] == d;
                    assert(t != j);
                }
                if exists|t: int| j + 1 <= t < dues.len() && dues@[t] == d {
                    let t = choose|t: int| j + 1 <= t < dues.len() && dues@[t] == d;
                    assert(dues@[j as int] < dues@[t]);
                    assert(cur.contains_key(d));
                }
            }
            j += 1;
        }
        proof {
            let cur = self@.deadlines;
            assert forall|k: u64| !(is_earliest(cur, k) && k <= now) by {
                if is_earliest(cur, k) && k <= now {
                    let t = choose|t: int| j <= t < dues.len() && dues@[t] == k;
                    assert(cur.contains_key(dues@[j as int]));
                    if t > j {
                        assert(dues@[j as int] < dues@[t]);
                    }
                }
            }
            assert(take_due(cur, now) == (Seq::<usize>::empty(), cur));
            assert(due_indices@ + Seq::<usize>::empty() =~= due_indices@);
        }
        let ghost mid = self@;
        assert(before.process_deadlines(Some(now)) == mid.resume_expired(due_indices@));
        let mut k: usize = 0;
        assert(due_indices@.skip(0) =~= due_indices@);
        assert(resumed@ + mid.resume_expired(due_indices@).1 =~= mid.resume_expired(due_indices@).1);
        while k < due_indices.len()
            invariant
                k <= due_indices.len(),
                mid.resume_expired(due_indices@) == (
                    self@.resume_expired(due_indices@.skip(k as int)).0,
                    resumed@ + self@.resume_expired(due_indices@.skip(k as int)).1,
                ),
            decreases due_indices.len() - k,
        {
            let index = due_indices[k];
            let ghost cur = self@;
            let ghost r = resumed@;
            let waits = match self.conditions.get(&index) {
                Some(ResumeCondition::After(_)) => true,
                _ => false,
            };
            assert(due_indices@.skip(k as int)[0] == index);
            assert(due_indices@.skip(k as int).drop_first() =~= due_indices@.skip(k + 1));
            if waits {
                self.resume_actor(index);
                resumed.push(index);
                assert(r + (seq![index] + self@.resume_expired(due_indices@.skip(k + 1)).1) =~= resumed@
                    + self@.resume_expired(due_indices@.skip(k + 1)).1);
            }
            k += 1;
        }
        assert(due_indices@.skip(k as int) =~= Seq::<usize>::empty());
        assert(resumed@ + Seq::<usize>::empty() =~= resumed@);
        resumed
    }
}

} // verus!
