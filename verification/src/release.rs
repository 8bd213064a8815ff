use crate::hazard::{HazardSlot, SLOT_FREE};
use crate::memory::Memory;
use vstd::prelude::*;

verus! {

/// How far the owner of a slot has come in giving it back. Each state but the
/// last stands for one atomic store to the slot.
///
/// The protection is withdrawn first: whoever finds the slot free finds that it
/// protects nothing.
#[derive(Clone, Copy)]
pub enum Release {
    /// Withdraw the slot's protection.
    Withdraw,
    /// Mark the slot free.
    Free,
    /// The slot is given back.
    Done,
}

impl Release {
    /// The state that follows when the store of this one is made.
    pub open spec fn after(self) -> Release {
        match self {
            Release::Withdraw => Release::Free,
            Release::Free => Release::Done,
            Release::Done => Release::Done,
        }
    }

    /// How many stores are still to be made.
    pub open spec fn stores_left(self) -> int {
        match self {
            Release::Withdraw => 2,
            Release::Free => 1,
            Release::Done => 0,
        }
    }

    /// Begins to give a slot back.
    pub fn start() -> (state: Release)
        ensures
            state == Release::Withdraw,
    {
        Release::Withdraw
    }

    /// Decides what comes after the store of this state.
    pub fn advance(self) -> (next: Release)
        requires
            self !is Done,
        ensures
            next == self.after(),
    {
        match self {
            Release::Withdraw => Release::Free,
            Release::Free => Release::Done,
            Release::Done => Release::Done,
        }
    }
}

impl HazardSlot {
    /// The slot after the store of `state`.
    pub open spec fn after_release(self, state: Release) -> HazardSlot {
        match state {
            Release::Withdraw => HazardSlot { protected: 0, ..self },
            Release::Free => HazardSlot { active: SLOT_FREE, ..self },
            Release::Done => self,
        }
    }

    /// The slot once it is given back.
    pub open spec fn released(self) -> HazardSlot {
        HazardSlot { protected: 0, next: self.next, active: SLOT_FREE }
    }
}

impl Memory {
    /// The memory after the store of `state`, by the owner of `slot`.
    pub open spec fn release_access(self, slot: usize, state: Release) -> Memory {
        self.with_slot(slot, self.slots[slot as int].after_release(state))
    }
}

} // verus!
