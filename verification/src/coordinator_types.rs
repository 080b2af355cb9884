//! Actor states, suspension reasons, resume conditions and invocation
//! outcomes exchanged between actors and the ready-queue coordinators.

use vstd::prelude::*;

use crate::mailbox_index::SignalKey;

verus! {

/// Actor lifecycle signals.
#[derive(Clone, Copy, Debug, PartialEq, Eq, Structural)]
pub enum Signal {
    /// Signal sent after the actor stops.
    PostStop,
}

/// Actor execution state.
#[derive(Clone, Copy, Debug, PartialEq, Eq, Structural)]
pub enum ActorState {
    /// Actor is actively processing messages.
    Running,
    /// Actor is suspended.
    Suspended,
    /// Actor is in the process of stopping.
    Stopping,
    /// Actor has stopped.
    Stopped,
}

/// Reason for actor suspension.
#[derive(Clone, Copy, Debug, PartialEq, Eq, Structural)]
pub enum SuspendReason {
    /// Suspended due to backpressure.
    Backpressure,
    /// Suspended while awaiting an external event.
    AwaitExternal,
    /// Suspended due to rate limiting.
    RateLimit,
    /// User-defined suspension reason.
    UserDefined,
}

/// Nanoseconds in one second.
pub const NANOS_PER_SEC: u64 = 1_000_000_000;

/// A span of time: whole seconds and the nanoseconds below one second.
/// The constructors keep `subsec_nanos` below one second.
#[derive(Clone, Copy, Debug, PartialEq, Eq, Structural)]
pub struct Delay {
    /// Whole seconds.
    pub secs: u64,
    /// Nanoseconds beyond the whole seconds.
    pub subsec_nanos: u32,
}

impl Delay {
    /// The length of the delay in nanoseconds.
    pub open spec fn nanos(self) -> u128 {
        (self.secs * NANOS_PER_SEC + self.subsec_nanos) as u128
    }

    /// A delay of `secs` seconds and `nanos` nanoseconds; nanoseconds of a
    /// second or more carry into the seconds.
    pub fn new(secs: u64, nanos: u32) -> (d: Self)
        requires
            secs + (nanos as u64) / NANOS_PER_SEC <= u64::MAX,
        ensures
            d.nanos() == secs * NANOS_PER_SEC + nanos,
            d.subsec_nanos < NANOS_PER_SEC,
    {
        let extra: u64 = (nanos as u64) / NANOS_PER_SEC;
        let rest: u32 = ((nanos as u64) % NANOS_PER_SEC) as u32;
        let d = Delay { secs: secs + extra, subsec_nanos: rest };
        assert(nanos == extra * NANOS_PER_SEC + rest) by (nonlinear_arith)
            requires
                extra == (nanos as u64) / NANOS_PER_SEC,
                rest == (nanos as u64) % NANOS_PER_SEC,
        ;
        assert((secs + extra) * NANOS_PER_SEC == secs * NANOS_PER_SEC + extra * NANOS_PER_SEC) by (nonlinear_arith);
        d
    }

    /// A delay of `secs` seconds.
    pub fn from_secs(secs: u64) -> (d: Self)
        ensures
            d.nanos() == secs * NANOS_PER_SEC,
            d.subsec_nanos == 0,
    {
        Delay { secs, subsec_nanos: 0 }
    }

    /// A delay of `millis` milliseconds.
    pub fn from_millis(millis: u64) -> (d: Self)
        ensures
            d.nanos() == millis * 1_000_000,
            d.subsec_nanos < NANOS_PER_SEC,
    {
        let secs = millis / 1000;
        let ms = millis % 1000;
        assert(ms * 1_000_000 < NANOS_PER_SEC) by (nonlinear_arith)
            requires
                ms < 1000,
        ;
        let d = Delay { secs, subsec_nanos: (ms * 1_000_000) as u32 };
        assert(millis * 1_000_000 == secs * NANOS_PER_SEC + ms * 1_000_000) by (nonlinear_arith)
            requires
                secs == millis / 1000,
                ms == millis % 1000,
        ;
        d
    }

    /// A delay of `nanos` nanoseconds.
    pub fn from_nanos(nanos: u64) -> (d: Self)
        ensures
            d.nanos() == nanos,
            d.subsec_nanos < NANOS_PER_SEC,
    {
        let secs = nanos / NANOS_PER_SEC;
        let rest = nanos % NANOS_PER_SEC;
        let d = Delay { secs, subsec_nanos: rest as u32 };
        assert(nanos == secs * NANOS_PER_SEC + rest) by (nonlinear_arith)
            requires
                secs == nanos / NANOS_PER_SEC,
                rest == nanos % NANOS_PER_SEC,
        ;
        d
    }

    /// The length of the delay in nanoseconds.
    pub fn as_nanos(&self) -> (n: u128)
        ensures
            n == self.nanos(),
    {
        let secs = self.secs as u128;
        assert(secs * 1_000_000_000 <= 0xffff_ffff_ffff_ffffu128 * 1_000_000_000) by (nonlinear_arith)
            requires
                secs <= 0xffff_ffff_ffff_ffffu128,
        ;
        secs * 1_000_000_000 + self.subsec_nanos as u128
    }
}

/// Condition for resuming a suspended actor.
#[derive(Clone, Copy, Debug, PartialEq)]
pub enum ResumeCondition {
    /// Resume when the external signal is received.
    ExternalSignal(SignalKey),
    /// Resume after the specified delay.
    After(Delay),
    /// Resume when capacity becomes available.
    WhenCapacityAvailable,
}

/// Result of a message invocation.
#[derive(Clone, Debug, PartialEq)]
pub enum InvokeResult {
    /// Processing completed.
    Completed {
        /// Should this mailbox be registered in the ready queue again?
        ready_hint: bool,
    },
    /// Yielded for fairness (the throughput limit was reached).
    Yielded,
    /// The actor is suspended.
    Suspended {
        /// Reason for the suspension.
        reason: SuspendReason,
        /// Condition for resuming the actor.
        resume_on: ResumeCondition,
    },
    /// The actor failed during processing.
    Failed {
        /// Error message.
        error: String,
        /// Optional retry delay.
        retry_after: Option<Delay>,
    },
    /// The actor has stopped.
    Stopped,
}

/// Whether an invocation outcome asks for the mailbox to be scheduled again:
/// a completion with the ready hint set, or a yield.
pub open spec fn reregisters(result: InvokeResult) -> bool {
    match result {
        InvokeResult::Completed { ready_hint } => ready_hint,
        InvokeResult::Yielded => true,
        _ => false,
    }
}

/// Overflow strategy for mailbox capacity limits.
#[derive(Clone, Copy, Debug, PartialEq, Eq, Structural)]
pub enum OverflowStrategy {
    /// Drop the oldest message when full.
    DropOldest,
    /// Drop the newest message when full.
    DropNewest,
    /// Block the producer until space is available.
    BlockProducer,
    /// Reject the message immediately.
    Reject,
    /// Send to the dead letter queue.
    DeadLetter,
}

/// A mailbox capacity: a count that is never zero.
#[derive(Clone, Copy, Debug)]
pub struct NonZeroCapacity {
    value: usize,
}

impl NonZeroCapacity {
    /// The capacity as a number.
    pub closed spec fn view(self) -> usize {
        self.value
    }

    /// Every capacity is positive.
    #[verifier::type_invariant]
    closed spec fn positive(self) -> bool {
        self.value > 0
    }

    /// Creates a capacity of `value`; `None` when `value` is zero.
    pub fn new(value: usize) -> (c: Option<Self>)
        ensures
            c is Some <==> value > 0,
            c matches Some(c) ==> c@ == value,
    {
        if value > 0 {
            Some(NonZeroCapacity { value })
        } else {
            None
        }
    }

    /// Returns the capacity as a number.
    pub fn get(&self) -> (v: usize)
        ensures
            v == self@,
            v > 0,
    {
        proof {
            use_type_invariant(self);
        }
        self.value
    }
}

/// Mailbox configuration options.
#[derive(Clone, Debug)]
pub struct MailboxOptions {
    /// Maximum capacity (never zero).
    pub capacity: NonZeroCapacity,
    /// Strategy when the capacity is exceeded.
    pub overflow: OverflowStrategy,
    /// Slots reserved for system messages.
    pub reserve_for_system: usize,
}

impl Default for MailboxOptions {
    /// A capacity of 1000 messages, dropping the oldest on overflow, with ten
    /// slots reserved for system messages.
    fn default() -> (options: Self)
        ensures
            options.capacity@ == 1000,
            options.overflow == OverflowStrategy::DropOldest,
            options.reserve_for_system == 10,
    {
        MailboxOptions {
            capacity: NonZeroCapacity { value: 1000 },
            overflow: OverflowStrategy::DropOldest,
            reserve_for_system: 10,
        }
    }
}

} // verus!
