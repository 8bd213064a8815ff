use crate::memory::Memory;
use std::collections::HashSet;
use vstd::prelude::*;

verus! {

broadcast use vstd::std_specs::hash::group_hash_axioms;

/// How far a thread has come in walking the list of hazards. Each phase but
/// the last stands for one atomic load.
#[derive(Clone, Copy)]
pub enum CollectPhase {
    /// Load the head of the list.
    LoadHead,
    /// Load the address that `slot` protects.
    LoadProtected { slot: usize, head: Option<usize> },
    /// Load the link that follows `slot`.
    LoadNext { slot: usize, head: Option<usize> },
    /// The walk from `head` is over: load the head again.
    Recheck { head: Option<usize> },
    /// Finished.
    Done,
}

/// What a load of `Collect` brought back.
#[derive(Clone, Copy)]
pub enum CollectEvent {
    /// A link was loaded.
    Link { link: Option<usize> },
    /// A protected address was loaded.
    Protected { address: usize },
}

/// A walk over the list of hazards that gathers the protected addresses.
pub struct Collect {
    phase: CollectPhase,
    seen: HashSet<usize>,
}

/// The phase of a `Collect` and the addresses that it has gathered.
#[verifier::ext_equal]
pub struct CollectState {
    pub phase: CollectPhase,
    pub seen: Set<usize>,
}

impl CollectState {
    /// `event` is of the kind that this phase's load brings back.
    pub open spec fn awaits(self, event: CollectEvent) -> bool {
        match self.phase {
            CollectPhase::LoadHead => event is Link,
            CollectPhase::LoadProtected { .. } => event is Protected,
            CollectPhase::LoadNext { .. } => event is Link,
            CollectPhase::Recheck { .. } => event is Link,
            CollectPhase::Done => false,
        }
    }

    /// The state that follows on `event`.
    pub open spec fn after(self, event: CollectEvent) -> CollectState {
        match (self.phase, event) {
            (CollectPhase::LoadHead, CollectEvent::Link { link }) => CollectState {
                phase: CollectPhase::at_link(link, link),
                seen: Set::empty(),
            },
            (CollectPhase::LoadProtected { slot, head }, CollectEvent::Protected { address }) =>
                CollectState {
                    phase: CollectPhase::LoadNext { slot, head },
                    seen: if address != 0 { self.seen.insert(address) } else { self.seen },
                },
            (CollectPhase::LoadNext { head, .. }, CollectEvent::Link { link }) => CollectState {
                phase: CollectPhase::at_link(link, head),
                seen: self.seen,
            },
            (CollectPhase::Recheck { head }, CollectEvent::Link { link }) => CollectState {
                phase: if link == head { CollectPhase::Done } else { CollectPhase::LoadHead },
                seen: self.seen,
            },
            (_, _) => self,
        }
    }
}

impl CollectPhase {
    /// The phase of a walk from `head` that has come to `link`.
    pub open spec fn at_link(link: Option<usize>, head: Option<usize>) -> CollectPhase {
        match link {
            Some(slot) => CollectPhase::LoadProtected { slot, head },
            None => CollectPhase::Recheck { head },
        }
    }
}

impl Memory {
    /// What the next load of a walk over the list of hazards brings back.
    pub open spec fn collect_access(self, phase: CollectPhase) -> CollectEvent {
        match phase {
            CollectPhase::LoadHead => CollectEvent::Link { link: self.head },
            CollectPhase::LoadProtected { slot, .. } => CollectEvent::Protected {
                address: self.slots[slot as int].protected,
            },
            CollectPhase::LoadNext { slot, .. } => CollectEvent::Link {
                link: self.slots[slot as int].next,
            },
            CollectPhase::Recheck { .. } => CollectEvent::Link { link: self.head },
            CollectPhase::Done => CollectEvent::Link { link: self.head },
        }
    }
}

impl View for Collect {
    type V = CollectState;

    closed spec fn view(&self) -> CollectState {
        CollectState { phase: self.phase, seen: self.seen@ }
    }
}

impl Collect {
    pub fn start() -> (walk: Collect)
        ensures
            walk@ == (CollectState { phase: CollectPhase::LoadHead, seen: Set::empty() }),
    {
        Collect { phase: CollectPhase::LoadHead, seen: HashSet::new() }
    }

    pub fn phase(&self) -> (phase: CollectPhase)
        ensures
            phase == self@.phase,
    {
        self.phase
    }

    fn enter(link: Option<usize>, head: Option<usize>) -> (phase: CollectPhase)
        ensures
            phase == CollectPhase::at_link(link, head),
    {
        match link {
            Some(slot) => CollectPhase::LoadProtected { slot, head },
            None => CollectPhase::Recheck { head },
        }
    }

    /// Decides what comes after the load that brought back `event`.
    pub fn advance(&mut self, event: CollectEvent)
        requires
            old(self)@.awaits(event),
        ensures
            final(self)@ == old(self)@.after(event),
    {
        match (self.phase, event) {
            (CollectPhase::LoadHead, CollectEvent::Link { link }) => {
                self.seen = HashSet::new();
                self.phase = Self::enter(link, link);
            },
            (CollectPhase::LoadProtected { slot, head }, CollectEvent::Protected { address }) => {
                if address != 0 {
                    self.seen.insert(address);
                }
                self.phase = CollectPhase::LoadNext { slot, head };
            },
            (CollectPhase::LoadNext { head, .. }, CollectEvent::Link { link }) => {
                self.phase = Self::enter(link, head);
            },
            (CollectPhase::Recheck { head }, CollectEvent::Link { link }) => {
                if link == head {
                    self.phase = CollectPhase::Done;
                } else {
                    self.phase = CollectPhase::LoadHead;
                }
            },
            (_, _) => {},
        }
    }

    /// The addresses gathered by a walk that is finished.
    pub fn finish(self) -> (seen: HashSet<usize>)
        requires
            self@.phase is Done,
        ensures
            seen@ == self@.seen,
    {
        self.seen
    }
}

} // verus!
