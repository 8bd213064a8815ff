use crate::memory::Memory;
use vstd::prelude::*;

verus! {

/// How far a thread has come in protecting what a shared pointer holds. Each
/// state but the last stands for one atomic access.
#[derive(Clone, Copy)]
pub enum Protect {
    /// Load the shared pointer.
    Load,
    /// The pointer was null: withdraw the slot's protection.
    Clear,
    /// Store `ptr` in the slot.
    Publish { ptr: usize },
    /// Load the shared pointer again: it must still hold `ptr`.
    Validate { ptr: usize },
    /// Store `ptr`, which the caller vouches for, in the slot.
    Pin { ptr: usize },
    /// Finished: the protected address, or nothing for a null pointer.
    Done { guarded: Option<usize> },
}

/// What an access of `Protect` brought back.
#[derive(Clone, Copy)]
pub enum ProtectEvent {
    /// The shared pointer held `ptr`.
    Loaded { ptr: usize },
    /// The slot was written.
    Stored,
}

impl Protect {
    /// `event` is of the kind that this state's access brings back.
    pub open spec fn awaits(self, event: ProtectEvent) -> bool {
        match self {
            Protect::Load => event is Loaded,
            Protect::Clear => event is Stored,
            Protect::Publish { .. } => event is Stored,
            Protect::Validate { .. } => event is Loaded,
            Protect::Pin { .. } => event is Stored,
            Protect::Done { .. } => false,
        }
    }

    /// The state that follows on `event`.
    pub open spec fn after(self, event: ProtectEvent) -> Protect {
        match (self, event) {
            (Protect::Load, ProtectEvent::Loaded { ptr }) => if ptr == 0 {
                Protect::Clear
            } else {
                Protect::Publish { ptr }
            },
            (Protect::Clear, ProtectEvent::Stored) => Protect::Done { guarded: None },
            (Protect::Publish { ptr }, ProtectEvent::Stored) => Protect::Validate { ptr },
            (Protect::Validate { ptr }, ProtectEvent::Loaded { ptr: now }) => if now == ptr {
                Protect::Done { guarded: Some(ptr) }
            } else {
                Protect::Load
            },
            (Protect::Pin { ptr }, ProtectEvent::Stored) => Protect::Done { guarded: Some(ptr) },
            (state, _) => state,
        }
    }

    /// The state after a sequence of events.
    pub open spec fn after_all(self, events: Seq<ProtectEvent>) -> Protect
        decreases events.len(),
    {
        if events.len() == 0 {
            self
        } else {
            self.after_all(events.drop_last()).after(events.last())
        }
    }

    /// Each event is of the kind that is awaited when it comes.
    pub open spec fn awaits_all(self, events: Seq<ProtectEvent>) -> bool
        decreases events.len(),
    {
        events.len() > 0 ==> {
            &&& self.awaits_all(events.drop_last())
            &&& self.after_all(events.drop_last()).awaits(events.last())
        }
    }

    /// The start of protecting the address `ptr` itself.
    pub open spec fn at_ptr(ptr: usize) -> Protect {
        if ptr == 0 {
            Protect::Clear
        } else {
            Protect::Pin { ptr }
        }
    }

    /// Begins to protect what a shared pointer holds.
    pub fn start() -> (state: Protect)
        ensures
            state == Protect::Load,
    {
        Protect::Load
    }

    /// Begins to protect the address `ptr` itself.
    pub fn start_at(ptr: usize) -> (state: Protect)
        ensures
            state == Protect::at_ptr(ptr),
    {
        if ptr == 0 {
            Protect::Clear
        } else {
            Protect::Pin { ptr }
        }
    }

    /// Decides what comes after the access that brought back `event`.
    pub fn advance(self, event: ProtectEvent) -> (next: Protect)
        requires
            self.awaits(event),
        ensures
            next == self.after(event),
    {
        match (self, event) {
            (Protect::Load, ProtectEvent::Loaded { ptr }) => if ptr == 0 {
                Protect::Clear
            } else {
                Protect::Publish { ptr }
            },
            (Protect::Clear, ProtectEvent::Stored) => Protect::Done { guarded: None },
            (Protect::Publish { ptr }, ProtectEvent::Stored) => Protect::Validate { ptr },
            (Protect::Validate { ptr }, ProtectEvent::Loaded { ptr: now }) => if now == ptr {
                Protect::Done { guarded: Some(ptr) }
            } else {
                Protect::Load
            },
            (Protect::Pin { ptr }, ProtectEvent::Stored) => Protect::Done { guarded: Some(ptr) },
            (state, _) => state,
        }
    }
}

/// The shared memory after one access, and what the access brought back.
pub struct ProtectStep {
    pub memory: Memory,
    pub event: ProtectEvent,
}

impl Memory {
    /// What the access of `state`, on behalf of the owner of `slot`, does to
    /// the memory while the shared pointer holds `source`.
    pub open spec fn protect_access(self, slot: usize, state: Protect, source: usize) -> ProtectStep {
        match state {
            Protect::Load => ProtectStep {
                memory: self,
                event: ProtectEvent::Loaded { ptr: source },
            },
            Protect::Clear => ProtectStep {
                memory: self.with_protected(slot, 0),
                event: ProtectEvent::Stored,
            },
            Protect::Publish { ptr } => ProtectStep {
                memory: self.with_protected(slot, ptr),
                event: ProtectEvent::Stored,
            },
            Protect::Validate { .. } => ProtectStep {
                memory: self,
                event: ProtectEvent::Loaded { ptr: source },
            },
            Protect::Pin { ptr } => ProtectStep {
                memory: self.with_protected(slot, ptr),
                event: ProtectEvent::Stored,
            },
            Protect::Done { .. } => ProtectStep { memory: self, event: ProtectEvent::Stored },
        }
    }
}

} // verus!
