use crate::domain::HazardDomain;
use std::collections::HashSet;
use vstd::prelude::*;

verus! {

/// Whether `retired` objects are enough to reclaim.
pub fn reclaim_due(retired: usize, threshold: usize) -> (due: bool)
    ensures
        due == (retired >= threshold),
{
    retired >= threshold
}

/// How far a thread has come in reclaiming. Each state but the last stands for
/// something to be done.
///
/// The retired list is locked before the hazards are gathered, and stays locked
/// until the list is swept: nothing is retired in between, so whatever the list
/// holds was retired before the first hazard was looked at.
pub enum Reclaim {
    /// Lock the retired list.
    Lock,
    /// Gather the protected addresses.
    Collect,
    /// Delete the retired objects whose addresses are not in `seen`.
    Sweep { seen: HashSet<usize> },
    /// Unlock the retired list.
    Unlock,
    /// Finished.
    Done,
}

/// What was done for a `Reclaim`.
pub enum ReclaimEvent {
    /// The retired list was locked.
    Locked,
    /// The protected addresses were gathered.
    Collected { seen: HashSet<usize> },
    /// The retired list was swept.
    Swept,
    /// The retired list was unlocked.
    Unlocked,
}

/// A `Reclaim` as a value.
#[verifier::ext_equal]
pub enum ReclaimState {
    Lock,
    Collect,
    Sweep { seen: Set<usize> },
    Unlock,
    Done,
}

/// A `ReclaimEvent` as a value.
#[verifier::ext_equal]
pub enum ReclaimOutcome {
    Locked,
    Collected { seen: Set<usize> },
    Swept,
    Unlocked,
}

impl ReclaimState {
    /// `event` is of the kind that this state awaits.
    pub open spec fn awaits(self, event: ReclaimOutcome) -> bool {
        match self {
            ReclaimState::Lock => event is Locked,
            ReclaimState::Collect => event is Collected,
            ReclaimState::Sweep { .. } => event is Swept,
            ReclaimState::Unlock => event is Unlocked,
            ReclaimState::Done => false,
        }
    }

    /// The state that follows on `event`.
    pub open spec fn after(self, event: ReclaimOutcome) -> ReclaimState {
        match (self, event) {
            (ReclaimState::Lock, ReclaimOutcome::Locked) => ReclaimState::Collect,
            (ReclaimState::Collect, ReclaimOutcome::Collected { seen }) => ReclaimState::Sweep {
                seen,
            },
            (ReclaimState::Sweep { .. }, ReclaimOutcome::Swept) => ReclaimState::Unlock,
            (ReclaimState::Unlock, ReclaimOutcome::Unlocked) => ReclaimState::Done,
            (state, _) => state,
        }
    }

    /// The state after a sequence of events.
    pub open spec fn after_all(self, events: Seq<ReclaimOutcome>) -> ReclaimState
        decreases events.len(),
    {
        if events.len() == 0 {
            self
        } else {
            self.after_all(events.drop_last()).after(events.last())
        }
    }

    /// Each event is of the kind that is awaited when it comes.
    pub open spec fn awaits_all(self, events: Seq<ReclaimOutcome>) -> bool
        decreases events.len(),
    {
        events.len() > 0 ==> {
            &&& self.awaits_all(events.drop_last())
            &&& self.after_all(events.drop_last()).awaits(events.last())
        }
    }
}

impl View for Reclaim {
    type V = ReclaimState;

    open spec fn view(&self) -> ReclaimState {
        match *self {
            Reclaim::Lock => ReclaimState::Lock,
            Reclaim::Collect => ReclaimState::Collect,
            Reclaim::Sweep { seen } => ReclaimState::Sweep { seen: seen@ },
            Reclaim::Unlock => ReclaimState::Unlock,
            Reclaim::Done => ReclaimState::Done,
        }
    }
}

impl View for ReclaimEvent {
    type V = ReclaimOutcome;

    open spec fn view(&self) -> ReclaimOutcome {
        match *self {
            ReclaimEvent::Locked => ReclaimOutcome::Locked,
            ReclaimEvent::Collected { seen } => ReclaimOutcome::Collected { seen: seen@ },
            ReclaimEvent::Swept => ReclaimOutcome::Swept,
            ReclaimEvent::Unlocked => ReclaimOutcome::Unlocked,
        }
    }
}

impl Reclaim {
    /// Begins to reclaim.
    pub fn start() -> (state: Reclaim)
        ensures
            state@ == ReclaimState::Lock,
    {
        Reclaim::Lock
    }

    /// Decides what comes after `event`.
    pub fn advance(self, event: ReclaimEvent) -> (next: Reclaim)
        requires
            self@.awaits(event@),
        ensures
            next@ == self@.after(event@),
    {
        match (self, event) {
            (Reclaim::Lock, ReclaimEvent::Locked) => Reclaim::Collect,
            (Reclaim::Collect, ReclaimEvent::Collected { seen }) => Reclaim::Sweep { seen },
            (Reclaim::Sweep { .. }, ReclaimEvent::Swept) => Reclaim::Unlock,
            (Reclaim::Unlock, ReclaimEvent::Unlocked) => Reclaim::Done,
            (state, _) => state,
        }
    }
}

/// What a background task does with a domain each time its timer fires.
#[derive(Clone, Copy)]
pub enum ReclaimTask {
    /// Reclaim.
    EveryTick,
    /// Reclaim if at least `threshold` objects are retired.
    AtThreshold { threshold: usize },
}

impl ReclaimTask {
    /// The task reclaims when it finds `retired` objects.
    pub open spec fn is_due(self, retired: nat) -> bool {
        match self {
            ReclaimTask::EveryTick => true,
            ReclaimTask::AtThreshold { threshold } => retired >= threshold,
        }
    }

    /// Decides whether to reclaim when `retired` objects are found.
    pub fn due(&self, retired: usize) -> (due: bool)
        ensures
            due == self.is_due(retired as nat),
            *self matches ReclaimTask::AtThreshold { threshold } ==> due == (retired >= threshold),
            *self is EveryTick ==> due,
    {
        match self {
            ReclaimTask::EveryTick => true,
            ReclaimTask::AtThreshold { threshold } => reclaim_due(retired, *threshold),
        }
    }

    /// What one tick does to `domain`.
    pub fn tick<D: FnOnce(usize)>(&self, domain: &mut HazardDomain<D>)
        requires
            old(domain).wf(),
        ensures
            final(domain).wf(),
            final(domain)@ == if self.is_due(old(domain)@.retired.len()) {
                old(domain)@.reclaimed()
            } else {
                old(domain)@
            },
            final(domain).grants() == old(domain).grants(),
    {
        if self.due(domain.retired_count()) {
            domain.reclaim();
        }
    }
}

} // verus!
