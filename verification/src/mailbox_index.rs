//! Identifiers of mailboxes and of external wake-up signals.

use vstd::prelude::*;

verus! {

/// Number of distinct generations a slot can carry; the key of an index packs
/// the slot above this radix and the generation below it.
pub const GENERATION_RADIX: u64 = 0x1_0000_0000;

/// Mailbox index with slot and generation for safe reuse.
#[derive(Clone, Copy, Debug, PartialEq, Eq, Structural, Hash, PartialOrd, Ord)]
pub struct MailboxIndex {
    /// Slot number in the registry.
    pub slot: u32,
    /// Generation number to prevent use-after-free.
    pub generation: u32,
}

impl MailboxIndex {
    /// Creates a new `MailboxIndex`.
    pub fn new(slot: u32, generation: u32) -> (idx: Self)
        ensures
            idx.slot == slot,
            idx.generation == generation,
    {
        Self { slot, generation }
    }

    /// The 64-bit key that identifies this index in hashed sets: the slot in
    /// the upper half, the generation in the lower half.
    pub open spec fn key_spec(self) -> u64 {
        (self.slot as int * GENERATION_RADIX as int + self.generation as int) as u64
    }

    /// Computes [`MailboxIndex::key_spec`].
    pub fn key(&self) -> (k: u64)
        ensures
            k == self.key_spec(),
    {
        (self.slot as u64) * GENERATION_RADIX + (self.generation as u64)
    }
}

/// Two indices have the same key exactly when they are equal.
pub broadcast proof fn lemma_key_injective(a: MailboxIndex, b: MailboxIndex)
    ensures
        (#[trigger] a.key_spec() == #[trigger] b.key_spec()) <==> a == b,
{
}

/// Signal key for external wake-up.
#[derive(Clone, Copy, Debug, PartialEq, Eq, Structural, Hash, PartialOrd, Ord)]
pub struct SignalKey(pub u64);

} // verus!
