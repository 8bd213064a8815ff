use crate::acquire::{Acquire, AcquireEvent};
use crate::collect::{Collect, CollectEvent, CollectPhase, CollectState};
use crate::grants::{Claim, Grants};
use crate::hazard::{HazardSlot, SLOT_ACQUIRED};
use crate::memory::Memory;
use crate::reclaim::{Reclaim, ReclaimEvent, ReclaimState};
use crate::retired::{RetiredList, RetiredNode, Sweep};
use std::collections::HashSet;
use vstd::prelude::*;

verus! {

/// The number of retired objects that makes a domain reclaim by default.
pub const DEFAULT_THRESHOLD: usize = 64;

/// A set of hazards, and the objects that were retired under them.
///
/// It has no destructor: one that goes out of scope deletes nothing. `teardown`
/// ends a domain and deletes what still waits.
#[must_use]
pub struct HazardDomain<D> {
    slots: Vec<HazardSlot>,
    hazards: Option<usize>,
    retired: RetiredList<D>,
    reclaim_threshold: usize,
    grants: Ghost<Grants>,
}

/// What a `HazardDomain` holds.
#[verifier::ext_equal]
pub struct DomainState<D> {
    /// The slots and the list that links them.
    pub memory: Memory,
    /// The retired objects that wait to be deleted.
    pub retired: Seq<RetiredNode<D>>,
    /// The objects that have been deleted, in order.
    pub deleted: Seq<RetiredNode<D>>,
    /// How many retired objects make the domain reclaim.
    pub threshold: usize,
}

impl<D> DomainState<D> {
    /// A domain without slots or objects.
    pub open spec fn empty(threshold: usize) -> DomainState<D> {
        DomainState {
            memory: Memory { slots: Seq::empty(), head: None },
            retired: Seq::empty(),
            deleted: Seq::empty(),
            threshold,
        }
    }

    /// The addresses that some hazard protects.
    pub open spec fn protected(self) -> Set<usize> {
        self.memory.protected_addresses()
    }

    /// A hazard pointer owns `slot`.
    pub open spec fn owns(self, slot: usize) -> bool {
        slot < self.memory.slots.len() && self.memory.slots[slot as int].active == SLOT_ACQUIRED
    }

    /// The domain after `address` is stored in `slot`.
    pub open spec fn published(self, slot: usize, address: usize) -> DomainState<D> {
        DomainState { memory: self.memory.with_protected(slot, address), ..self }
    }

    /// The domain after a reclamation: every retired object that no hazard
    /// protects is deleted.
    pub open spec fn reclaimed(self) -> DomainState<D> {
        let pass = Sweep::over(self.retired, self.protected());
        DomainState { retired: pass.kept, deleted: self.deleted + pass.deleted, ..self }
    }

    /// The domain after an object is retired: it reclaims if that makes
    /// `threshold` retired objects or more.
    pub open spec fn retired_with(self, node: RetiredNode<D>) -> DomainState<D> {
        let added = DomainState { retired: self.retired.push(node), ..self };
        if added.retired.len() >= self.threshold {
            added.reclaimed()
        } else {
            added
        }
    }

    /// The domain after it has ended.
    pub open spec fn torn_down(self) -> DomainState<D> {
        DomainState {
            memory: Memory { slots: Seq::empty(), head: None },
            retired: Seq::empty(),
            deleted: self.deleted + self.retired,
            ..self
        }
    }

    /// The domain after a slot is taken.
    pub open spec fn acquired(self) -> DomainState<D> {
        DomainState { memory: self.memory.acquired(), ..self }
    }

    /// A slot that is taken protects nothing yet.
    pub proof fn law_acquiring_protects_nothing(self)
        ensures
            self.acquired().protected() == self.protected(),
    {
        let before = self.memory;
        let after = self.acquired().memory;
        if before.has_free() {
            before.first_free_exists();
        }
        assert forall|address: usize| self.acquired().protected().contains(address)
            == self.protected().contains(address) by {
            if self.protected().contains(address) {
                let i = choose|i: int|
                    0 <= i < before.slots.len() && (#[trigger] before.slots[i]).protected == address;
                assert(after.slots[i].protected == address);
            }
            if self.acquired().protected().contains(address) {
                let i = choose|i: int|
                    0 <= i < after.slots.len() && (#[trigger] after.slots[i]).protected == address;
                assert(before.slots[i].protected == address);
            }
        }
        assert(self.acquired().protected() =~= self.protected());
    }

    /// The domain after `slot` is given back.
    pub open spec fn released(self, slot: usize) -> DomainState<D> {
        DomainState {
            memory: self.memory.with_slot(slot, self.memory.slots[slot as int].released()),
            ..self
        }
    }
}

impl<D> View for HazardDomain<D> {
    type V = DomainState<D>;

    closed spec fn view(&self) -> DomainState<D> {
        DomainState {
            memory: Memory { slots: self.slots@, head: self.hazards },
            retired: self.retired@,
            deleted: self.retired.history(),
            threshold: self.reclaim_threshold,
        }
    }
}

impl<D> HazardDomain<D> {
    /// Who has acquired its slots.
    pub closed spec fn grants(&self) -> Grants {
        self.grants@
    }

    /// `claim` is the right to one of its slots.
    pub open spec fn honours(&self, claim: Claim) -> bool {
        self.grants().honours(self@, claim)
    }
}

/// What an undisturbed thread that acquires a slot has done to the memory,
/// which was `start`, when it comes to `state`.
spec fn acquire_progress(start: Memory, now: Memory, state: Acquire) -> bool {
    let fresh = HazardSlot { protected: 0, next: None, active: SLOT_ACQUIRED };
    match state {
        Acquire::LoadHead => now == start,
        Acquire::Claim { slot } => {
            &&& now == start
            &&& start.has(slot)
            &&& forall|j: int| slot < j < start.slots.len() ==> !(#[trigger] start.slots[j]).is_free()
        },
        Acquire::LoadNext { slot } => {
            &&& now == start
            &&& start.has(slot)
            &&& forall|j: int| slot <= j < start.slots.len() ==> !(#[trigger] start.slots[j]).is_free()
        },
        Acquire::Allocate => now == start && !start.has_free(),
        Acquire::ReloadHead { slot } => {
            &&& !start.has_free()
            &&& slot == start.slots.len()
            &&& now == (Memory { slots: start.slots.push(fresh), head: start.head })
        },
        Acquire::StoreNext { slot, head } => {
            &&& !start.has_free()
            &&& slot == start.slots.len()
            &&& head == start.head
            &&& now == (Memory { slots: start.slots.push(fresh), head: start.head })
        },
        Acquire::SwapHead { slot, head } => {
            &&& !start.has_free()
            &&& slot == start.slots.len()
            &&& head == start.head
            &&& now == (Memory {
                slots: start.slots.push(HazardSlot { next: start.head, ..fresh }),
                head: start.head,
            })
        },
        Acquire::Done { slot } => {
            &&& now == start.acquired()
            &&& slot == start.slot_to_acquire()
            &&& start.has_free() ==> start.first_free(slot as int)
        },
    }
}

/// How many accesses an undisturbed thread that acquires a slot makes at most.
spec fn acquire_measure(start: Memory, state: Acquire) -> int {
    match state {
        Acquire::LoadHead => 2 * (start.slots.len() as int) + 6,
        Acquire::Claim { slot } => 2 * slot + 6,
        Acquire::LoadNext { slot } => 2 * slot + 5,
        Acquire::Allocate => 4,
        Acquire::ReloadHead { .. } => 3,
        Acquire::StoreNext { .. } => 2,
        Acquire::SwapHead { .. } => 1,
        Acquire::Done { .. } => 0,
    }
}

proof fn acquire_proceeds(start: Memory, now: Memory, state: Acquire)
    requires
        start.linked_in_order(),
        start.slots.len() <= usize::MAX,
        acquire_progress(start, now, state),
        state !is Done,
    ensures
        ({
            let step = now.acquire_access(state);
            let next = state.after(step.event);
            &&& acquire_progress(start, step.memory, next)
            &&& 0 <= acquire_measure(start, next) < acquire_measure(start, state)
        }),
{
    let step = now.acquire_access(state);
    match state {
        Acquire::Claim { slot } => {
            if start.slots[slot as int].is_free() {
                assert(start.first_free(slot as int));
                let chosen = start.slot_to_acquire();
                assert(start.first_free(chosen));
                assert(chosen == slot);
            }
        },
        Acquire::LoadNext { slot } => {
            assert(start.slots[slot as int].next == crate::memory::link_below(slot as int));
        },
        Acquire::StoreNext { slot, head } => {
            let fresh = HazardSlot { protected: 0, next: None, active: SLOT_ACQUIRED };
            assert(step.memory.slots =~= start.slots.push(
                HazardSlot { next: start.head, ..fresh },
            ));
        },
        _ => {},
    }
}

/// What an undisturbed walk has gathered.
spec fn collect_progress(memory: Memory, walk: CollectState) -> bool {
    match walk.phase {
        CollectPhase::LoadHead => true,
        CollectPhase::LoadProtected { slot, head } => {
            &&& memory.has(slot)
            &&& head == memory.head
            &&& walk.seen == memory.protected_from(slot + 1)
        },
        CollectPhase::LoadNext { slot, head } => {
            &&& memory.has(slot)
            &&& head == memory.head
            &&& walk.seen == memory.protected_from(slot as int)
        },
        CollectPhase::Recheck { head } => {
            &&& head == memory.head
            &&& walk.seen == memory.protected_addresses()
        },
        CollectPhase::Done => walk.seen == memory.protected_addresses(),
    }
}

/// How many loads an undisturbed walk makes at most.
spec fn collect_measure(memory: Memory, phase: CollectPhase) -> int {
    match phase {
        CollectPhase::LoadHead => 2 * (memory.slots.len() as int) + 4,
        CollectPhase::LoadProtected { slot, .. } => 2 * slot + 3,
        CollectPhase::LoadNext { slot, .. } => 2 * slot + 2,
        CollectPhase::Recheck { .. } => 1,
        CollectPhase::Done => 0,
    }
}

proof fn collect_proceeds(memory: Memory, walk: CollectState)
    requires
        memory.linked_in_order(),
        memory.slots.len() <= usize::MAX,
        collect_progress(memory, walk),
        walk.phase !is Done,
    ensures
        ({
            let next = walk.after(memory.collect_access(walk.phase));
            &&& collect_progress(memory, next)
            &&& 0 <= collect_measure(memory, next.phase) < collect_measure(memory, walk.phase)
        }),
{
    let next = walk.after(memory.collect_access(walk.phase));
    match walk.phase {
        CollectPhase::LoadHead => {
            assert(next.seen =~= memory.protected_from(memory.slots.len() as int));
        },
        CollectPhase::LoadProtected { slot, .. } => {
            assert(next.seen =~= memory.protected_from(slot as int));
        },
        CollectPhase::LoadNext { slot, .. } => {
            assert(memory.slots[slot as int].next == crate::memory::link_below(slot as int));
        },
        _ => {},
    }
}

/// What an undisturbed thread that reclaims has done to the domain, which was
/// `start`, when it comes to `state`.
spec fn reclaim_progress<D>(start: DomainState<D>, now: DomainState<D>, state: ReclaimState) -> bool {
    match state {
        ReclaimState::Lock => now == start,
        ReclaimState::Collect => now == start,
        ReclaimState::Sweep { seen } => now == start && seen == start.protected(),
        ReclaimState::Unlock => now == start.reclaimed(),
        ReclaimState::Done => now == start.reclaimed(),
    }
}

/// How many things are left to do for an undisturbed thread that reclaims.
spec fn reclaim_measure(state: ReclaimState) -> int {
    match state {
        ReclaimState::Lock => 4,
        ReclaimState::Collect => 3,
        ReclaimState::Sweep { .. } => 2,
        ReclaimState::Unlock => 1,
        ReclaimState::Done => 0,
    }
}

impl<D: FnOnce(usize)> HazardDomain<D> {
    /// The list holds every slot, free slots protect nothing, every retired
    /// object can be deleted, and every slot has an acquisition of its own.
    pub closed spec fn wf(&self) -> bool {
        &&& self@.memory.linked_in_order()
        &&& forall|i: int| 0 <= i < self.slots@.len() ==> (#[trigger] self.slots@[i]).settled()
        &&& self.retired.wf()
        &&& self.grants().wf()
        &&& self.grants().stamps.len() == self.slots@.len()
    }

    /// Every slot has an acquisition of its own.
    pub proof fn law_grants_are_apart(&self)
        requires
            self.wf(),
        ensures
            self.grants().wf(),
            self.grants().stamps.len() == self@.memory.slots.len(),
    {
    }

    /// Every slot is in the list, the newest first, and a slot that nobody owns
    /// protects nothing.
    pub proof fn law_slots_are_settled(&self)
        requires
            self.wf(),
        ensures
            self@.memory.linked_in_order(),
            forall|i: int|
                0 <= i < self@.memory.slots.len() ==> (#[trigger] self@.memory.slots[i]).settled(),
            self@.memory.slots.len() == 0 ==> self@.memory.head is None,
            self@.memory.slots.len() > 0 ==> self@.memory.head == Some(
                (self@.memory.slots.len() - 1) as usize,
            ),
            forall|i: int|
                0 <= i < self@.memory.slots.len() ==> (#[trigger] self@.memory.slots[i]).next
                    == if i == 0 { None } else { Some((i - 1) as usize) },
            forall|i: int|
                0 <= i < self@.memory.slots.len() && (
                #[trigger] self@.memory.slots[i]).active != SLOT_ACQUIRED
                    ==> self@.memory.slots[i].active == crate::hazard::SLOT_FREE
                    && self@.memory.slots[i].protected == 0,
    {
    }

    /// The deleter of every deleted object has been called on its address; that
    /// of every waiting object can be.
    pub proof fn law_deleters_are_called(&self)
        requires
            self.wf(),
        ensures
            forall|i: int| 0 <= i < self@.deleted.len() ==> (#[trigger] self@.deleted[i]).deleted(),
            forall|i: int| 0 <= i < self@.retired.len() ==> (#[trigger] self@.retired[i]).deletable(),
            forall|i: int|
                0 <= i < self@.deleted.len() ==> call_ensures(
                    (#[trigger] self@.deleted[i]).deleter,
                    (self@.deleted[i].ptr,),
                    (),
                ),
            forall|i: int|
                0 <= i < self@.retired.len() ==> call_requires(
                    (#[trigger] self@.retired[i]).deleter,
                    (self@.retired[i].ptr,),
                ),
    {
    }

    /// A domain that reclaims at `DEFAULT_THRESHOLD` retired objects.
    pub fn new() -> (domain: Self)
        ensures
            domain.wf(),
            domain@ == DomainState::<D>::empty(DEFAULT_THRESHOLD),
            domain@.threshold == 64,
            domain.grants().count == 0,
    {
        Self::with_threshold(DEFAULT_THRESHOLD)
    }

    /// A domain that reclaims at `reclaim_threshold` retired objects.
    pub fn with_threshold(reclaim_threshold: usize) -> (domain: Self)
        ensures
            domain.wf(),
            domain@ == DomainState::<D>::empty(reclaim_threshold),
            domain@.threshold == reclaim_threshold,
            domain.grants().count == 0,
    {
        HazardDomain {
            slots: Vec::new(),
            hazards: None,
            retired: RetiredList::new(),
            reclaim_threshold,
            grants: Ghost(Grants { id: arbitrary(), stamps: Seq::empty(), count: 0 }),
        }
    }

    /// Makes the access of `state`.
    fn acquire_access(&mut self, state: Acquire) -> (event: AcquireEvent)
        requires
            old(self)@.memory.admits(state),
            state !is Done,
        ensures
            final(self)@ == (DomainState {
                memory: old(self)@.memory.acquire_access(state).memory,
                ..old(self)@
            }),
            event == old(self)@.memory.acquire_access(state).event,
            final(self).retired == old(self).retired,
            final(self).grants() == old(self).grants(),
    {
        let event = match state {
            Acquire::LoadHead => AcquireEvent::Link { link: self.hazards },
            Acquire::Claim { slot } => {
                let taken = self.slots[slot].try_acquire();
                AcquireEvent::Claimed { taken }
            },
            Acquire::LoadNext { slot } => AcquireEvent::Link { link: self.slots[slot].next },
            Acquire::Allocate => {
                let slot: usize = self.slots.len();
                self.slots.push(HazardSlot::new_acquired());
                AcquireEvent::Allocated { slot }
            },
            Acquire::ReloadHead { .. } => AcquireEvent::Link { link: self.hazards },
            Acquire::StoreNext { slot, head } => {
                self.slots[slot].next = head;
                AcquireEvent::Stored
            },
            Acquire::SwapHead { slot, head } => {
                let linked = self.hazards == head;
                if linked {
                    self.hazards = Some(slot);
                }
                AcquireEvent::Swapped { linked }
            },
            Acquire::Done { .. } => AcquireEvent::Stored,
        };
        assert(self@.memory =~= old(self)@.memory.acquire_access(state).memory);
        event
    }

    /// Takes the free slot that is nearest to the head of the list, or links a
    /// new one if none is free.
    pub fn acquire(&mut self) -> (slot: usize)
        requires
            old(self).wf(),
        ensures
            final(self).wf(),
            slot == old(self)@.memory.slot_to_acquire(),
            old(self)@.memory.has_free() ==> old(self)@.memory.first_free(slot as int),
            final(self)@ == old(self)@.acquired(),
            final(self).grants() == old(self).grants().with(slot),
    {
        let mut state = Acquire::start();
        let ghost start = self@.memory;
        assert(start.slots.len() == self.slots.len());
        loop
            invariant
                old(self).wf(),
                start == old(self)@.memory,
                start.slots.len() <= usize::MAX,
                self@ == (DomainState { memory: self@.memory, ..old(self)@ }),
                self.retired == old(self).retired,
                self.grants() == old(self).grants(),
                acquire_progress(start, self@.memory, state),
            decreases acquire_measure(start, state),
        {
            if let Acquire::Done { slot } = state {
                self.grants = Ghost(self.grants@.with(slot));
                return slot;
            }
            let ghost before = self@.memory;
            let event = self.acquire_access(state);
            let next = state.advance(event);
            proof {
                acquire_proceeds(start, before, state);
            }
            state = next;
        }
    }

    /// Gives a slot back.
    pub fn release(&mut self, slot: usize)
        requires
            old(self).wf(),
            old(self)@.memory.has(slot),
        ensures
            final(self).wf(),
            final(self)@ == old(self)@.released(slot),
            final(self).grants() == old(self).grants(),
    {
        self.slots[slot].release();
        assert(self@.memory.linked_in_order());
    }

    /// Stores `address` in a slot; 0 withdraws the protection.
    pub(crate) fn publish(&mut self, slot: usize, address: usize)
        requires
            old(self).wf(),
            old(self)@.owns(slot),
        ensures
            final(self).wf(),
            final(self)@ == old(self)@.published(slot, address),
            final(self).grants() == old(self).grants(),
    {
        self.slots[slot].protected = address;
    }

    /// Retires the object at `ptr`, to be deleted by `deleter` once nothing
    /// protects it. Reclaims if that makes as many as the threshold.
    pub fn retire_with_deleter(&mut self, ptr: usize, deleter: D)
        requires
            old(self).wf(),
            call_requires(deleter, (ptr,)),
        ensures
            final(self).wf(),
            final(self)@ == old(self)@.retired_with(RetiredNode { ptr, deleter }),
            final(self)@.memory == old(self)@.memory,
            final(self)@.threshold == old(self)@.threshold,
            final(self).grants() == old(self).grants(),
    {
        if self.retired.retire(ptr, deleter, self.reclaim_threshold) {
            self.reclaim();
        }
    }

    /// Deletes every retired object that no hazard protects.
    pub fn reclaim(&mut self)
        requires
            old(self).wf(),
        ensures
            final(self).wf(),
            final(self)@ == old(self)@.reclaimed(),
            final(self)@.memory == old(self)@.memory,
            final(self)@.threshold == old(self)@.threshold,
            final(self).grants() == old(self).grants(),
    {
        let mut state = Reclaim::start();
        loop
            invariant
                self.wf(),
                self.grants() == old(self).grants(),
                reclaim_progress(old(self)@, self@, state@),
            decreases reclaim_measure(state@),
        {
            let event = match &state {
                Reclaim::Lock => ReclaimEvent::Locked,
                Reclaim::Collect => ReclaimEvent::Collected { seen: self.collect_protected() },
                Reclaim::Sweep { seen } => {
                    self.retired.reclaim(seen);
                    ReclaimEvent::Swept
                },
                Reclaim::Unlock => ReclaimEvent::Unlocked,
                Reclaim::Done => {
                    return;
                },
            };
            state = state.advance(event);
        }
    }

    /// Makes the load of a walk over the list.
    fn collect_access(&self, phase: CollectPhase) -> (event: CollectEvent)
        requires
            phase matches CollectPhase::LoadProtected { slot, .. } ==> self@.memory.has(slot),
            phase matches CollectPhase::LoadNext { slot, .. } ==> self@.memory.has(slot),
        ensures
            event == self@.memory.collect_access(phase),
    {
        match phase {
            CollectPhase::LoadHead => CollectEvent::Link { link: self.hazards },
            CollectPhase::LoadProtected { slot, .. } => CollectEvent::Protected {
                address: self.slots[slot].protected,
            },
            CollectPhase::LoadNext { slot, .. } => CollectEvent::Link { link: self.slots[slot].next },
            CollectPhase::Recheck { .. } => CollectEvent::Link { link: self.hazards },
            CollectPhase::Done => CollectEvent::Link { link: self.hazards },
        }
    }

    /// The addresses that some hazard protects.
    fn collect_protected(&self) -> (protected: HashSet<usize>)
        requires
            self.wf(),
        ensures
            protected@ == self@.protected(),
    {
        let mut walk = Collect::start();
        assert(self@.memory.slots.len() == self.slots.len());
        loop
            invariant
                self.wf(),
                self@.memory.slots.len() <= usize::MAX,
                collect_progress(self@.memory, walk@),
            decreases collect_measure(self@.memory, walk@.phase),
        {
            let phase = walk.phase();
            if let CollectPhase::Done = phase {
                return walk.finish();
            }
            let event = self.collect_access(phase);
            proof {
                collect_proceeds(self@.memory, walk@);
            }
            walk.advance(event);
        }
    }

    /// How many retired objects wait to be deleted.
    pub fn retired_count(&self) -> (count: usize)
        ensures
            count == self@.retired.len(),
    {
        self.retired.len()
    }

    /// Ends the domain: drops the slots and deletes every retired object,
    /// protected or not.
    pub fn teardown(&mut self)
        requires
            old(self).wf(),
        ensures
            final(self).wf(),
            final(self)@ == old(self)@.torn_down(),
            final(self).grants() == old(self).grants().without_slots(),
    {
        self.hazards = None;
        self.slots.clear();
        self.grants = Ghost(self.grants@.without_slots());
        self.retired.force_reclaim_all();
    }
}

impl<D: FnOnce(usize)> Default for HazardDomain<D> {
    fn default() -> (domain: Self)
        ensures
            domain.wf(),
            domain@ == DomainState::<D>::empty(DEFAULT_THRESHOLD),
            domain@.threshold == 64,
            domain.grants().count == 0,
    {
        HazardDomain::new()
    }
}

} // verus!
