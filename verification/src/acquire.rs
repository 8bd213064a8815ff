use crate::hazard::{HazardSlot, SLOT_ACQUIRED};
use crate::memory::Memory;
use vstd::prelude::*;

verus! {

/// How far a thread has come in taking a slot for itself. Each state but the
/// last stands for one atomic access to the shared memory.
#[derive(Clone, Copy)]
pub enum Acquire {
    /// Load the head of the list.
    LoadHead,
    /// Try to claim `slot` by exchanging its `active`.
    Claim { slot: usize },
    /// Load the link that follows `slot`.
    LoadNext { slot: usize },
    /// No slot was free: allocate one, owned from the start.
    Allocate,
    /// Load the head that the new `slot` is to be put in front of.
    ReloadHead { slot: usize },
    /// Store `head` as the link that follows the new `slot`.
    StoreNext { slot: usize, head: Option<usize> },
    /// Exchange the list's head from `head` to the new `slot`.
    SwapHead { slot: usize, head: Option<usize> },
    /// `slot` is taken.
    Done { slot: usize },
}

/// What an access of `Acquire` brought back.
#[derive(Clone, Copy)]
pub enum AcquireEvent {
    /// A link was loaded.
    Link { link: Option<usize> },
    /// The exchange of `active` succeeded or failed.
    Claimed { taken: bool },
    /// A slot was allocated.
    Allocated { slot: usize },
    /// The link was stored.
    Stored,
    /// The exchange of the head succeeded or failed.
    Swapped { linked: bool },
}

impl Acquire {
    /// `event` is of the kind that this state's access brings back.
    pub open spec fn awaits(self, event: AcquireEvent) -> bool {
        match self {
            Acquire::LoadHead => event is Link,
            Acquire::Claim { .. } => event is Claimed,
            Acquire::LoadNext { .. } => event is Link,
            Acquire::Allocate => event is Allocated,
            Acquire::ReloadHead { .. } => event is Link,
            Acquire::StoreNext { .. } => event is Stored,
            Acquire::SwapHead { .. } => event is Swapped,
            Acquire::Done { .. } => false,
        }
    }

    /// The state that follows on `event`.
    pub open spec fn after(self, event: AcquireEvent) -> Acquire {
        match (self, event) {
            (Acquire::LoadHead, AcquireEvent::Link { link: Some(slot) }) => Acquire::Claim { slot },
            (Acquire::LoadHead, AcquireEvent::Link { link: None }) => Acquire::Allocate,
            (Acquire::Claim { slot }, AcquireEvent::Claimed { taken: true }) => Acquire::Done { slot },
            (Acquire::Claim { slot }, AcquireEvent::Claimed { taken: false }) => Acquire::LoadNext {
                slot,
            },
            (Acquire::LoadNext { .. }, AcquireEvent::Link { link: Some(slot) }) => Acquire::Claim {
                slot,
            },
            (Acquire::LoadNext { .. }, AcquireEvent::Link { link: None }) => Acquire::Allocate,
            (Acquire::Allocate, AcquireEvent::Allocated { slot }) => Acquire::ReloadHead { slot },
            (Acquire::ReloadHead { slot }, AcquireEvent::Link { link }) => Acquire::StoreNext {
                slot,
                head: link,
            },
            (Acquire::StoreNext { slot, head }, AcquireEvent::Stored) => Acquire::SwapHead {
                slot,
                head,
            },
            (Acquire::SwapHead { slot, .. }, AcquireEvent::Swapped { linked: true }) => Acquire::Done {
                slot,
            },
            (Acquire::SwapHead { slot, .. }, AcquireEvent::Swapped { linked: false }) =>
                Acquire::ReloadHead { slot },
            (state, _) => state,
        }
    }

    pub fn start() -> (state: Acquire)
        ensures
            state == Acquire::LoadHead,
    {
        Acquire::LoadHead
    }

    /// Decides what comes after the access that brought back `event`.
    pub fn advance(self, event: AcquireEvent) -> (next: Acquire)
        requires
            self.awaits(event),
        ensures
            next == self.after(event),
    {
        match (self, event) {
            (Acquire::LoadHead, AcquireEvent::Link { link: Some(slot) }) => Acquire::Claim { slot },
            (Acquire::LoadHead, AcquireEvent::Link { link: None }) => Acquire::Allocate,
            (Acquire::Claim { slot }, AcquireEvent::Claimed { taken }) => if taken {
                Acquire::Done { slot }
            } else {
                Acquire::LoadNext { slot }
            },
            (Acquire::LoadNext { .. }, AcquireEvent::Link { link: Some(slot) }) => Acquire::Claim {
                slot,
            },
            (Acquire::LoadNext { .. }, AcquireEvent::Link { link: None }) => Acquire::Allocate,
            (Acquire::Allocate, AcquireEvent::Allocated { slot }) => Acquire::ReloadHead { slot },
            (Acquire::ReloadHead { slot }, AcquireEvent::Link { link }) => Acquire::StoreNext {
                slot,
                head: link,
            },
            (Acquire::StoreNext { slot, head }, AcquireEvent::Stored) => Acquire::SwapHead {
                slot,
                head,
            },
            (Acquire::SwapHead { slot, .. }, AcquireEvent::Swapped { linked }) => if linked {
                Acquire::Done { slot }
            } else {
                Acquire::ReloadHead { slot }
            },
            (state, _) => state,
        }
    }
}

/// The shared memory after one access, and what the access brought back.
pub struct AcquireStep {
    pub memory: Memory,
    pub event: AcquireEvent,
}

impl Memory {
    /// The slots that `state` names exist.
    pub open spec fn admits(self, state: Acquire) -> bool {
        match state {
            Acquire::Claim { slot } => self.has(slot),
            Acquire::LoadNext { slot } => self.has(slot),
            Acquire::ReloadHead { slot } => self.has(slot),
            Acquire::StoreNext { slot, .. } => self.has(slot),
            Acquire::SwapHead { slot, .. } => self.has(slot),
            _ => true,
        }
    }

    /// What the access of `state` does to the memory, and what it brings back.
    pub open spec fn acquire_access(self, state: Acquire) -> AcquireStep {
        match state {
            Acquire::LoadHead => AcquireStep {
                memory: self,
                event: AcquireEvent::Link { link: self.head },
            },
            Acquire::Claim { slot } => {
                let taken = self.slots[slot as int].is_free();
                AcquireStep {
                    memory: if taken { self.with_active(slot, SLOT_ACQUIRED) } else { self },
                    event: AcquireEvent::Claimed { taken },
                }
            },
            Acquire::LoadNext { slot } => AcquireStep {
                memory: self,
                event: AcquireEvent::Link { link: self.slots[slot as int].next },
            },
            Acquire::Allocate => AcquireStep {
                memory: Memory {
                    slots: self.slots.push(
                        HazardSlot { protected: 0, next: None, active: SLOT_ACQUIRED },
                    ),
                    head: self.head,
                },
                event: AcquireEvent::Allocated { slot: self.slots.len() as usize },
            },
            Acquire::ReloadHead { slot } => AcquireStep {
                memory: self,
                event: AcquireEvent::Link { link: self.head },
            },
            Acquire::StoreNext { slot, head } => AcquireStep {
                memory: self.with_next(slot, head),
                event: AcquireEvent::Stored,
            },
            Acquire::SwapHead { slot, head } => {
                let linked = self.head == head;
                AcquireStep {
                    memory: if linked { Memory { head: Some(slot), ..self } } else { self },
                    event: AcquireEvent::Swapped { linked },
                }
            },
            Acquire::Done { .. } => AcquireStep { memory: self, event: AcquireEvent::Stored },
        }
    }
}

} // verus!
