use crate::domain::{DomainState, HazardDomain};
use crate::grants::Claim;
use crate::protect::{Protect, ProtectEvent};
use crate::release::Release;
use vstd::prelude::*;

verus! {

/// The value of `HazardSlot::active` while no hazard pointer owns the slot.
pub const SLOT_FREE: usize = 0;

/// The value of `HazardSlot::active` while a hazard pointer owns the slot.
pub const SLOT_ACQUIRED: usize = 1;

/// One entry of a domain's list of hazards.
///
/// Slots live in an arena and name each other by their index in it.
pub struct HazardSlot {
    /// The address that the slot protects, or 0.
    pub protected: usize,
    /// The slot that follows in the list.
    pub next: Option<usize>,
    /// `SLOT_FREE` or `SLOT_ACQUIRED`.
    pub active: usize,
}

impl HazardSlot {
    /// No hazard pointer owns the slot.
    pub open spec fn is_free(self) -> bool {
        self.active == SLOT_FREE
    }

    /// The slot is owned, or it is free and protects nothing.
    pub open spec fn settled(self) -> bool {
        ||| self.active == SLOT_ACQUIRED
        ||| self.active == SLOT_FREE && self.protected == 0
    }

    /// A free slot.
    pub fn new() -> (slot: Self)
        ensures
            slot == (HazardSlot { protected: 0, next: None, active: SLOT_FREE }),
    {
        HazardSlot { protected: 0, next: None, active: SLOT_FREE }
    }

    /// A slot that is owned from the start.
    pub fn new_acquired() -> (slot: Self)
        ensures
            slot == (HazardSlot { protected: 0, next: None, active: SLOT_ACQUIRED }),
    {
        HazardSlot { protected: 0, next: None, active: SLOT_ACQUIRED }
    }

    /// Takes the slot if it is free, and says whether it did.
    pub fn try_acquire(&mut self) -> (taken: bool)
        ensures
            taken == old(self).is_free(),
            taken == (old(self).active == SLOT_FREE),
            *final(self) == (HazardSlot {
                active: if taken { SLOT_ACQUIRED } else { old(self).active },
                ..*old(self)
            }),
    {
        if self.active == SLOT_FREE {
            self.active = SLOT_ACQUIRED;
            true
        } else {
            false
        }
    }

    /// Makes the store of `state`.
    fn release_access(&mut self, state: Release)
        ensures
            *final(self) == old(self).after_release(state),
    {
        match state {
            Release::Withdraw => {
                self.protected = 0;
            },
            Release::Free => {
                self.active = SLOT_FREE;
            },
            Release::Done => {},
        }
    }

    /// Withdraws the protection and gives the slot back.
    pub fn release(&mut self)
        ensures
            *final(self) == old(self).released(),
            *final(self) == (HazardSlot { protected: 0, next: old(self).next, active: SLOT_FREE }),
            *final(self) == old(self).after_release(Release::Withdraw).after_release(Release::Free),
    {
        let mut state = Release::start();
        loop
            invariant
                state is Withdraw ==> *self == *old(self),
                state is Free ==> *self == old(self).after_release(Release::Withdraw),
                state is Done ==> *self == old(self).after_release(
                    Release::Withdraw,
                ).after_release(Release::Free),
            decreases state.stores_left(),
        {
            if let Release::Done = state {
                return;
            }
            self.release_access(state);
            state = state.advance();
        }
    }
}

impl Default for HazardSlot {
    fn default() -> (slot: Self)
        ensures
            slot == (HazardSlot { protected: 0, next: None, active: SLOT_FREE }),
    {
        HazardSlot::new()
    }
}

/// What an undisturbed thread that protects has done to the domain, which was
/// `start`, when it comes to `state`.
spec fn protect_progress<D>(
    start: DomainState<D>,
    now: DomainState<D>,
    slot: usize,
    src: usize,
    state: Protect,
) -> bool {
    match state {
        Protect::Load => now == start,
        Protect::Clear => now == start && src == 0,
        Protect::Publish { ptr } => now == start && ptr == src && ptr != 0,
        Protect::Validate { ptr } => now == start.published(slot, ptr) && ptr == src && ptr != 0,
        Protect::Pin { ptr } => now == start && ptr == src && ptr != 0,
        Protect::Done { guarded } => {
            &&& now == start.published(slot, src)
            &&& guarded == if src == 0 { None } else { Some(src) }
        },
    }
}

/// How many accesses an undisturbed thread that protects makes at most.
spec fn protect_measure(state: Protect) -> int {
    match state {
        Protect::Load => 3,
        Protect::Clear => 1,
        Protect::Publish { .. } => 2,
        Protect::Validate { .. } => 1,
        Protect::Pin { .. } => 1,
        Protect::Done { .. } => 0,
    }
}

/// The right to protect one address at a time in a domain.
///
/// A hazard pointer is the owner of one slot. Calls that touch the slot take
/// the domain that it was acquired from.
///
/// It has no destructor: one that goes out of scope keeps its slot, and what the
/// slot protects stays protected. `release` gives the slot back.
#[must_use]
pub struct HazardPointer {
    slot: usize,
    domain: Ghost<int>,
    stamp: Ghost<nat>,
}

impl HazardPointer {
    /// Its right to its slot. A domain honours it from `new` to `release`.
    pub closed spec fn claim(&self) -> Claim {
        Claim { domain: self.domain@, slot: self.slot, stamp: self.stamp@ }
    }

    /// The slot that it owns.
    pub open spec fn slot(&self) -> usize {
        self.claim().slot
    }

    /// The domain that it was acquired from.
    pub open spec fn domain(&self) -> int {
        self.claim().domain
    }

    /// Acquires a slot of `domain`.
    pub fn new<D: FnOnce(usize)>(domain: &mut HazardDomain<D>) -> (hazard: Self)
        requires
            old(domain).wf(),
        ensures
            final(domain).wf(),
            final(domain)@ == old(domain)@.acquired(),
            final(domain).grants() == old(domain).grants().with(hazard.slot()),
            hazard.domain() == old(domain).grants().id,
            hazard.claim().stamp == old(domain).grants().count,
            hazard.slot() == old(domain)@.memory.slot_to_acquire(),
            old(domain)@.memory.has_free() ==> old(domain)@.memory.first_free(hazard.slot() as int),
            !old(domain)@.owns(hazard.slot()),
            final(domain).honours(hazard.claim()),
            forall|claim: Claim|
                old(domain).honours(claim) ==> #[trigger] final(domain).honours(claim),
            final(domain)@.protected() == old(domain)@.protected(),
            final(domain)@.retired == old(domain)@.retired,
    {
        let ghost before = domain@;
        let ghost grants = domain.grants();
        proof {
            domain.law_grants_are_apart();
        }
        let slot = domain.acquire();
        proof {
            before.law_acquiring_protects_nothing();
        }
        HazardPointer { slot, domain: Ghost(grants.id), stamp: Ghost(grants.count) }
    }

    /// Protects what `src` holds: the address, which the guard then stands
    /// for, or nothing if `src` is null.
    ///
    /// `src` is borrowed for the whole call, so the second load finds what the
    /// first did. `Protect` is the same procedure for a `src` that other
    /// threads may change between the loads.
    pub fn protect<D: FnOnce(usize)>(&self, domain: &mut HazardDomain<D>, src: &usize) -> (guard:
        Option<HazardGuard>)
        requires
            old(domain).wf(),
            old(domain).honours(self.claim()),
        ensures
            final(domain).wf(),
            final(domain)@ == old(domain)@.published(self.slot(), *src),
            final(domain).grants() == old(domain).grants(),
            final(domain)@.memory.slots[self.slot() as int].protected == *src,
            *src != 0 ==> final(domain)@.protected().contains(*src),
            guard is None <==> *src == 0,
            guard matches Some(g) ==> g.ptr() == *src && g.claim() == self.claim(),
    {
        self.run_protect(domain, Protect::start(), src)
    }

    /// Protects the address `ptr`, unless it is null.
    ///
    /// Nothing is loaded again: it is for the caller to know that the object
    /// has not been retired.
    pub fn protect_ptr<D: FnOnce(usize)>(&self, domain: &mut HazardDomain<D>, ptr: usize) -> (guard:
        Option<HazardGuard>)
        requires
            old(domain).wf(),
            old(domain).honours(self.claim()),
        ensures
            final(domain).wf(),
            final(domain)@ == old(domain)@.published(self.slot(), ptr),
            final(domain).grants() == old(domain).grants(),
            final(domain)@.memory.slots[self.slot() as int].protected == ptr,
            ptr != 0 ==> final(domain)@.protected().contains(ptr),
            guard is None <==> ptr == 0,
            guard matches Some(g) ==> g.ptr() == ptr && g.claim() == self.claim(),
    {
        self.run_protect(domain, Protect::start_at(ptr), &ptr)
    }

    /// Runs `Protect` from `start` to its end.
    fn run_protect<D: FnOnce(usize)>(
        &self,
        domain: &mut HazardDomain<D>,
        start: Protect,
        src: &usize,
    ) -> (guard: Option<HazardGuard>)
        requires
            old(domain).wf(),
            old(domain).honours(self.claim()),
            start == Protect::Load || start == Protect::at_ptr(*src),
        ensures
            final(domain).wf(),
            final(domain)@ == old(domain)@.published(self.slot(), *src),
            final(domain).grants() == old(domain).grants(),
            final(domain)@.memory.slots[self.slot() as int].protected == *src,
            *src != 0 ==> final(domain)@.protected().contains(*src),
            guard is None <==> *src == 0,
            guard matches Some(g) ==> g.ptr() == *src && g.claim() == self.claim(),
    {
        let mut state = start;
        loop
            invariant
                domain.wf(),
                domain.grants() == old(domain).grants(),
                old(domain).honours(self.claim()),
                protect_progress(old(domain)@, domain@, self.slot(), *src, state),
            decreases protect_measure(state),
        {
            if let Protect::Done { guarded } = state {
                return match guarded {
                    Some(ptr) => Some(
                        HazardGuard { slot: self.slot, ptr, domain: self.domain, stamp: self.stamp },
                    ),
                    None => None,
                };
            }
            let event = self.protect_access(domain, state, src);
            state = state.advance(event);
        }
    }

    /// Makes the access of `state`.
    fn protect_access<D: FnOnce(usize)>(
        &self,
        domain: &mut HazardDomain<D>,
        state: Protect,
        src: &usize,
    ) -> (event: ProtectEvent)
        requires
            old(domain).wf(),
            old(domain).honours(self.claim()),
        ensures
            final(domain).wf(),
            final(domain)@ == (DomainState {
                memory: old(domain)@.memory.protect_access(self.slot(), state, *src).memory,
                ..old(domain)@
            }),
            final(domain).grants() == old(domain).grants(),
            event == old(domain)@.memory.protect_access(self.slot(), state, *src).event,
    {
        match state {
            Protect::Load => ProtectEvent::Loaded { ptr: *src },
            Protect::Clear => {
                self.clear(domain);
                ProtectEvent::Stored
            },
            Protect::Publish { ptr } => {
                domain.publish(self.slot, ptr);
                ProtectEvent::Stored
            },
            Protect::Validate { .. } => ProtectEvent::Loaded { ptr: *src },
            Protect::Pin { ptr } => {
                domain.publish(self.slot, ptr);
                ProtectEvent::Stored
            },
            Protect::Done { .. } => ProtectEvent::Stored,
        }
    }

    /// Withdraws the protection.
    pub fn clear<D: FnOnce(usize)>(&self, domain: &mut HazardDomain<D>)
        requires
            old(domain).wf(),
            old(domain).honours(self.claim()),
        ensures
            final(domain).wf(),
            final(domain)@ == old(domain)@.published(self.slot(), 0),
            final(domain).grants() == old(domain).grants(),
            final(domain)@.memory.slots[self.slot() as int].protected == 0,
    {
        domain.publish(self.slot, 0);
    }

    /// Gives the slot back to the domain.
    pub fn release<D: FnOnce(usize)>(self, domain: &mut HazardDomain<D>)
        requires
            old(domain).wf(),
            old(domain).honours(self.claim()),
        ensures
            final(domain).wf(),
            final(domain)@ == old(domain)@.released(self.slot()),
            final(domain).grants() == old(domain).grants(),
            !final(domain).honours(self.claim()),
            forall|claim: Claim|
                old(domain).honours(claim) && claim != self.claim()
                    ==> #[trigger] final(domain).honours(claim),
    {
        domain.release(self.slot);
    }
}

/// Stands for an address that a hazard pointer protects.
///
/// It can be used for as long as the hazard pointer that made it has its slot.
/// It has no destructor: one that goes out of scope leaves the address
/// protected. `release` withdraws the protection.
#[must_use]
pub struct HazardGuard {
    slot: usize,
    ptr: usize,
    domain: Ghost<int>,
    stamp: Ghost<nat>,
}

impl HazardGuard {
    /// The claim of the hazard pointer that made it.
    pub closed spec fn claim(&self) -> Claim {
        Claim { domain: self.domain@, slot: self.slot, stamp: self.stamp@ }
    }

    /// The slot that holds the protection.
    pub open spec fn slot(&self) -> usize {
        self.claim().slot
    }

    /// The protected address.
    pub closed spec fn ptr(&self) -> usize {
        self.ptr
    }

    /// The protected address.
    pub fn as_ptr(&self) -> (ptr: usize)
        ensures
            ptr == self.ptr(),
    {
        self.ptr
    }

    /// Gives the guard up: withdraws what its slot protects.
    pub fn release<D: FnOnce(usize)>(self, domain: &mut HazardDomain<D>)
        requires
            old(domain).wf(),
            old(domain).honours(self.claim()),
        ensures
            final(domain).wf(),
            final(domain)@ == old(domain)@.published(self.slot(), 0),
            final(domain).grants() == old(domain).grants(),
            final(domain)@.memory.slots[self.slot() as int].protected == 0,
    {
        domain.publish(self.slot, 0);
    }
}

} // verus!
