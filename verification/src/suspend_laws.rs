//! Laws of the suspension bookkeeping.

use vstd::prelude::*;

use crate::coordinator_types::{Delay, InvokeResult, ResumeCondition, SuspendReason};
use crate::mailbox_index::SignalKey;
use crate::suspend_registry::{
    due_time, is_earliest, take_due, without, SuspendModel, SuspendRegistry,
};

verus! {

impl SuspendModel {
    /// All three maps are finite.
    pub open spec fn wf(self) -> bool {
        &&& self.conditions.dom().finite()
        &&& self.signals.dom().finite()
        &&& self.deadlines.dom().finite()
    }
}

/// The state of every registry is finite.
pub proof fn lemma_registry_wf(r: &SuspendRegistry)
    ensures
        r@.wf(),
{
    crate::suspend_registry::lemma_view_finite(r);
}

/// Removing the occurrences of `x` leaves no `x` and adds nothing.
pub proof fn lemma_without(s: Seq<usize>, x: usize)
    ensures
        !without(s, x).contains(x),
        forall|y: usize| #[trigger] without(s, x).contains(y) ==> s.contains(y),
    decreases s.len(),
{
    if s.len() > 0 {
        lemma_without(s.drop_last(), x);
        let rest = without(s.drop_last(), x);
        assert forall|y: usize| #[trigger] without(s, x).contains(y) implies s.contains(y) by {
            if rest.contains(y) {
                let t = choose|t: int| 0 <= t < s.drop_last().len() && s.drop_last()[t] == y;
                assert(s[t] == y);
            } else {
                assert(y == s.last());
            }
        }
        if s.last() != x {
            assert forall|t: int| 0 <= t < rest.push(s.last()).len() implies rest.push(s.last())[t] != x by {
                if t < rest.len() {
                    assert(rest[t] == rest.push(s.last())[t]);
                }
            }
        }
    }
}

/// A finite non-empty set of keys has a smallest element.
pub proof fn lemma_finite_has_least(keys: Set<u64>)
    requires
        keys.finite(),
        keys.len() > 0,
    ensures
        exists|k: u64| keys.contains(k) && forall|k2: u64| keys.contains(k2) ==> k <= k2,
    decreases keys.len(),
{
    let x = keys.choose();
    let rest = keys.remove(x);
    if rest.len() == 0 {
        assert forall|k2: u64| keys.contains(k2) implies x <= k2 by {
            if k2 != x {
                assert(rest.contains(k2));
            }
        }
    } else {
        lemma_finite_has_least(rest);
        let k = choose|k: u64| rest.contains(k) && forall|k2: u64| rest.contains(k2) ==> k <= k2;
        if x < k {
            assert forall|k2: u64| keys.contains(k2) implies x <= k2 by {
                if k2 != x {
                    assert(rest.contains(k2));
                }
            }
        } else {
            assert forall|k2: u64| keys.contains(k2) implies k <= k2 by {
                if k2 != x {
                    assert(rest.contains(k2));
                }
            }
        }
    }
}

/// Taking the due deadlines leaves only deadlines after `now`, each with
/// its list unchanged, and collects every index registered at or before
/// `now`.
pub proof fn lemma_take_due(d: Map<u64, Seq<usize>>, now: u64)
    requires
        d.dom().finite(),
    ensures
        forall|k: u64| #[trigger] take_due(d, now).1.contains_key(k) ==> (k > now && d.contains_key(k)
            && take_due(d, now).1[k] == d[k]),
        forall|k: u64, x: usize|
            d.contains_key(k) && k <= now && #[trigger] d[k].contains(x) ==> take_due(d, now).0.contains(x),
        take_due(d, now).1.dom().finite(),
        forall|x: usize| #[trigger] take_due(d, now).0.contains(x) ==> exists|k: u64|
            d.contains_key(k) && k <= now && #[trigger] d[k].contains(x),
    decreases d.dom().len(),
{
    if exists|k: u64| is_earliest(d, k) && k <= now {
        let e = choose|k: u64| is_earliest(d, k) && k <= now;
        let rest = d.remove(e);
        lemma_take_due(rest, now);
        let (r, rem) = take_due(rest, now);
        assert(take_due(d, now) == (d[e] + r, rem));
        assert forall|k: u64, x: usize| d.contains_key(k) && k <= now && #[trigger] d[k].contains(x) implies (d[e]
            + r).contains(x) by {
            if k == e {
                let t = choose|t: int| 0 <= t < d[e].len() && d[e][t] == x;
                assert((d[e] + r)[t] == x);
            } else {
                assert(rest.contains_key(k) && rest[k] == d[k]);
                assert(r.contains(x));
                let t = choose|t: int| 0 <= t < r.len() && r[t] == x;
                assert((d[e] + r)[d[e].len() + t] == x);
            }
        }
        assert forall|x: usize| #[trigger] (d[e] + r).contains(x) implies exists|k: u64|
            d.contains_key(k) && k <= now && #[trigger] d[k].contains(x) by {
            let t = choose|t: int| 0 <= t < (d[e] + r).len() && (d[e] + r)[t] == x;
            if t < d[e].len() {
                assert(d[e][t] == x);
                assert(d[e].contains(x));
            } else {
                assert(r[t - d[e].len()] == x);
                assert(r.contains(x));
                let k = choose|k: u64| rest.contains_key(k) && k <= now && #[trigger] rest[k].contains(x);
                assert(d.contains_key(k) && d[k] == rest[k]);
            }
        }
    } else {
        assert forall|k: u64| d.contains_key(k) implies k > now by {
            if d.contains_key(k) && k <= now {
                lemma_finite_has_least(d.dom());
                let m = choose|m: u64| d.dom().contains(m) && forall|k2: u64| d.dom().contains(k2) ==> m <= k2;
                assert(is_earliest(d, m) && m <= now);
            }
        }
    }
}

/// Clearing an actor forgets its condition and all its deadline entries,
/// keeps the conditions of the other actors and the deadlines of other
/// actors' entries, and never adds deadlines.
pub proof fn lemma_clear(m: SuspendModel, index: usize)
    ensures
        !m.clear(index).conditions.contains_key(index),
        forall|j: usize| j != index ==> (#[trigger] m.clear(index).conditions.contains_key(j)
            == m.conditions.contains_key(j) && (m.conditions.contains_key(j) ==> m.clear(index).conditions[j]
            == m.conditions[j])),
        forall|due: u64| #[trigger] m.clear(index).deadlines.contains_key(due) ==> (m.deadlines.contains_key(due)
            && !m.clear(index).deadlines[due].contains(index)),
        m.wf() ==> m.clear(index).wf(),
{
    let c = m.clear(index);
    assert forall|due: u64| #[trigger] c.deadlines.contains_key(due) implies (m.deadlines.contains_key(due)
        && !c.deadlines[due].contains(index)) by {
        lemma_without(m.deadlines[due], index);
    }
    if m.wf() {
        assert(c.deadlines.dom().subset_of(m.deadlines.dom()));
        vstd::set_lib::lemma_len_subset(c.deadlines.dom(), m.deadlines.dom());
        let s1 = SuspendModel { conditions: m.conditions.remove(index), ..m };
        assert(s1.remove_signal_mapping(index).signals.dom().subset_of(m.signals.dom()));
        vstd::set_lib::lemma_len_subset(c.signals.dom(), m.signals.dom());
    }
}

/// Resuming expired entries: an index in the list that waits for a delay
/// is resumed; resumed actors are no longer suspended; the deadlines only
/// shrink and keep their lists' absence of resumed actors.
pub proof fn lemma_resume_expired(m: SuspendModel, indices: Seq<usize>)
    ensures
        forall|x: usize| #[trigger] indices.contains(x) && m.conditions.contains_key(x) && m.conditions[x] is After
            ==> m.resume_expired(indices).1.contains(x),
        forall|x: usize| #[trigger] m.resume_expired(indices).1.contains(x)
            ==> !m.resume_expired(indices).0.conditions.contains_key(x),
        forall|x: usize| #[trigger] m.resume_expired(indices).0.conditions.contains_key(x)
            ==> m.conditions.contains_key(x),
        forall|k: u64| #[trigger] m.resume_expired(indices).0.deadlines.contains_key(k)
            ==> m.deadlines.contains_key(k),
        m.wf() ==> m.resume_expired(indices).0.wf(),
    decreases indices.len(),
{
    if indices.len() > 0 {
        let i = indices[0];
        let waits = m.conditions.contains_key(i) && m.conditions[i] is After;
        let m1 = if waits {
            m.clear(i)
        } else {
            m
        };
        lemma_clear(m, i);
        lemma_resume_expired(m1, indices.drop_first());
        let (m2, rest) = m1.resume_expired(indices.drop_first());
        let out = if waits {
            seq![i] + rest
        } else {
            rest
        };
        assert(m.resume_expired(indices) == (m2, out));
        assert forall|x: usize| #[trigger] indices.contains(x) && m.conditions.contains_key(x)
            && m.conditions[x] is After implies out.contains(x) by {
            if x == i {
                assert(out[0] == x);
            } else {
                let t = choose|t: int| 0 <= t < indices.len() && indices[t] == x;
                assert(indices.drop_first()[t - 1] == x);
                assert(indices.drop_first().contains(x));
                assert(m1.conditions.contains_key(x) && m1.conditions[x] == m.conditions[x]);
                assert(rest.contains(x));
                let u = choose|u: int| 0 <= u < rest.len() && rest[u] == x;
                if waits {
                    assert(out[u + 1] == x);
                }
            }
        }
        assert forall|x: usize| #[trigger] out.contains(x) implies !m2.conditions.contains_key(x) by {
            if waits && x == i {
                assert(!m1.conditions.contains_key(i));
            } else {
                let u = choose|u: int| 0 <= u < out.len() && out[u] == x;
                if waits {
                    assert(rest[u - 1] == x);
                }
                assert(rest.contains(x));
            }
        }
    }
}

/// An actor suspended until a delay has elapsed is resumed by the first
/// processing of deadlines at or after its deadline, and is no longer
/// suspended afterwards.
pub proof fn lemma_after_delay_resumes(
    m: SuspendModel,
    index: usize,
    reason: SuspendReason,
    delay: Delay,
    now: u64,
    later: u64,
)
    requires
        m.wf(),
        later >= due_time(now, delay.nanos()),
    ensures
        ({
            let result = InvokeResult::Suspended { reason, resume_on: ResumeCondition::After(delay) };
            let (m1, resumed_now) = m.update(index, result, Some(now));
            let (m2, resumed) = m1.process_deadlines(Some(later));
            &&& !resumed_now
            &&& m1.conditions.contains_key(index)
            &&& resumed.contains(index)
            &&& !m2.conditions.contains_key(index)
        }),
{
    let result = InvokeResult::Suspended { reason, resume_on: ResumeCondition::After(delay) };
    let (m1, _) = m.update(index, result, Some(now));
    let due = due_time(now, delay.nanos());
    assert(m1.deadlines.contains_key(due));
    assert(m1.deadlines[due].contains(index)) by {
        let prev = if m.deadlines.contains_key(due) {
            m.deadlines[due]
        } else {
            Seq::empty()
        };
        assert(prev.push(index)[prev.len() as int] == index);
    }
    lemma_take_due(m1.deadlines, later);
    let (due_list, remaining) = take_due(m1.deadlines, later);
    assert(due_list.contains(index));
    let m_taken = SuspendModel { deadlines: remaining, ..m1 };
    lemma_resume_expired(m_taken, due_list);
}

/// An actor suspended until a delay has elapsed, with no earlier deadline
/// entry, is not resumed by processing deadlines before its deadline: it
/// stays suspended.
pub proof fn lemma_after_delay_waits(
    m: SuspendModel,
    index: usize,
    reason: SuspendReason,
    delay: Delay,
    now: u64,
    earlier: u64,
)
    requires
        m.wf(),
        earlier < due_time(now, delay.nanos()),
        forall|k: u64| #[trigger] m.deadlines.contains_key(k) ==> !m.deadlines[k].contains(index),
    ensures
        ({
            let result = InvokeResult::Suspended { reason, resume_on: ResumeCondition::After(delay) };
            let (m1, _) = m.update(index, result, Some(now));
            let (m2, resumed) = m1.process_deadlines(Some(earlier));
            &&& !resumed.contains(index)
            &&& m2.conditions.contains_key(index)
        }),
{
    let result = InvokeResult::Suspended { reason, resume_on: ResumeCondition::After(delay) };
    let (m1, _) = m.update(index, result, Some(now));
    let due = due_time(now, delay.nanos());
    assert(m1.wf()) by {
        assert(m1.deadlines.dom() =~= m.deadlines.dom().insert(due));
    }
    lemma_take_due(m1.deadlines, earlier);
    let (due_list, remaining) = take_due(m1.deadlines, earlier);
    assert(!due_list.contains(index)) by {
        if due_list.contains(index) {
            let k = choose|k: u64| m1.deadlines.contains_key(k) && k <= earlier && #[trigger] m1.deadlines[k].contains(index);
            assert(k != due);
            assert(m.deadlines.contains_key(k) && m1.deadlines[k] == m.deadlines[k]);
        }
    }
    let m_taken = SuspendModel { deadlines: remaining, ..m1 };
    lemma_resume_expired_skips(m_taken, due_list, index);
}

/// Resuming the expired entries of `indices` neither resumes nor clears an
/// index that is not among them.
pub proof fn lemma_resume_expired_skips(m: SuspendModel, indices: Seq<usize>, x: usize)
    requires
        !indices.contains(x),
    ensures
        !m.resume_expired(indices).1.contains(x),
        m.conditions.contains_key(x) ==> m.resume_expired(indices).0.conditions.contains_key(x),
    decreases indices.len(),
{
    if indices.len() > 0 {
        let i = indices[0];
        assert(i != x);
        let waits = m.conditions.contains_key(i) && m.conditions[i] is After;
        let m1 = if waits {
            m.clear(i)
        } else {
            m
        };
        lemma_clear(m, i);
        assert(!indices.drop_first().contains(x)) by {
            if indices.drop_first().contains(x) {
                let t = choose|t: int| 0 <= t < indices.drop_first().len() && indices.drop_first()[t] == x;
                assert(indices[t + 1] == x);
            }
        }
        lemma_resume_expired_skips(m1, indices.drop_first(), x);
        let (m2, rest) = m1.resume_expired(indices.drop_first());
        if waits {
            assert(!(seq![i] + rest).contains(x)) by {
                if (seq![i] + rest).contains(x) {
                    let t = choose|t: int| 0 <= t < (seq![i] + rest).len() && (seq![i] + rest)[t] == x;
                    if t > 0 {
                        assert(rest[t - 1] == x);
                    }
                }
            }
        }
    }
}

/// An actor suspended until an external signal is resumed by that signal,
/// which reports the actor's index.
pub proof fn lemma_signal_resumes(m: SuspendModel, index: usize, reason: SuspendReason, key: SignalKey)
    ensures
        ({
            let result = InvokeResult::Suspended { reason, resume_on: ResumeCondition::ExternalSignal(key) };
            let (m1, resumed_now) = m.update(index, result, None);
            let (m2, found, resumed) = m1.notify(key.0);
            &&& !resumed_now
            &&& m1.conditions.contains_key(index)
            &&& found == Some(index)
            &&& resumed
            &&& !m2.conditions.contains_key(index)
            &&& !m2.signals.contains_key(key.0)
        }),
{
    let result = InvokeResult::Suspended { reason, resume_on: ResumeCondition::ExternalSignal(key) };
    let (m1, _) = m.update(index, result, None);
    let m_removed = SuspendModel { signals: m1.signals.remove(key.0), ..m1 };
    lemma_clear(m_removed, index);
    let c = m_removed.clear(index);
    let s1 = SuspendModel { conditions: m_removed.conditions.remove(index), ..m_removed };
    assert(s1.remove_signal_mapping(index).signals.dom().subset_of(m_removed.signals.dom()));
}

/// An actor suspended until capacity is available resumes at once; so does
/// one that waits for a delay when no clock reading is available.
pub proof fn lemma_immediate_resumes(m: SuspendModel, index: usize, reason: SuspendReason, delay: Delay)
    ensures
        ({
            let result = InvokeResult::Suspended { reason, resume_on: ResumeCondition::WhenCapacityAvailable };
            let (m1, resumed) = m.update(index, result, None);
            resumed && !m1.conditions.contains_key(index)
        }),
        ({
            let result = InvokeResult::Suspended { reason, resume_on: ResumeCondition::After(delay) };
            let (m1, resumed) = m.update(index, result, None);
            resumed && !m1.conditions.contains_key(index)
        }),
{
    let result = InvokeResult::Suspended { reason, resume_on: ResumeCondition::WhenCapacityAvailable };
    lemma_clear(SuspendModel { conditions: m.conditions.insert(index, ResumeCondition::WhenCapacityAvailable), ..m }, index);
    lemma_clear(SuspendModel { conditions: m.conditions.insert(index, ResumeCondition::After(delay)), ..m }, index);
}

/// Any outcome other than a suspension leaves the actor not suspended and
/// without deadline entries.
pub proof fn lemma_other_outcome_clears(m: SuspendModel, index: usize, result: InvokeResult, now: Option<u64>)
    requires
        !(result is Suspended),
    ensures
        ({
            let (m1, resumed) = m.update(index, result, now);
            &&& !resumed
            &&& !m1.conditions.contains_key(index)
            &&& forall|due: u64| #[trigger] m1.deadlines.contains_key(due) ==> !m1.deadlines[due].contains(index)
        }),
{
    lemma_clear(m, index);
}

} // verus!
