use std::cell::RefCell;
use std::collections::HashSet;
use std::rc::Rc;

use hazard::acquire::{Acquire, AcquireEvent};
use hazard::collect::{Collect, CollectEvent, CollectPhase};
use hazard::hazard::{HazardSlot, SLOT_ACQUIRED, SLOT_FREE};
use hazard::protect::{Protect, ProtectEvent};
use hazard::reclaim::{reclaim_due, Reclaim, ReclaimEvent};
use hazard::release::Release;
use hazard::retired::{RetiredList, RetiredNode};
use hazard::{HazardDomain, HazardPointer};

type Deleter = Box<dyn FnOnce(usize)>;

/// The addresses that deleters were called on, in order.
struct Log {
    deleted: Rc<RefCell<Vec<usize>>>,
}

impl Log {
    fn new() -> Self {
        Self { deleted: Rc::new(RefCell::new(Vec::new())) }
    }

    fn deleter(&self) -> Deleter {
        let deleted = self.deleted.clone();
        Box::new(move |at| deleted.borrow_mut().push(at))
    }

    fn taken(&self) -> Vec<usize> {
        std::mem::take(&mut *self.deleted.borrow_mut())
    }
}

#[test]
fn a_new_slot_is_free_and_protects_nothing() {
    let slot = HazardSlot::new();
    assert_eq!((slot.protected, slot.next, slot.active), (0, None, SLOT_FREE));
    let slot = HazardSlot::default();
    assert_eq!((slot.protected, slot.next, slot.active), (0, None, SLOT_FREE));
    let slot = HazardSlot::new_acquired();
    assert_eq!((slot.protected, slot.next, slot.active), (0, None, SLOT_ACQUIRED));
}

#[test]
fn a_slot_is_taken_once_until_it_is_released() {
    let mut slot = HazardSlot::new();
    assert!(slot.try_acquire());
    assert_eq!(slot.active, SLOT_ACQUIRED);
    assert!(!slot.try_acquire());
    assert_eq!(slot.active, SLOT_ACQUIRED);

    slot.protected = 16;
    slot.next = Some(3);
    slot.release();
    assert_eq!((slot.protected, slot.next, slot.active), (0, Some(3), SLOT_FREE));
    assert!(slot.try_acquire());
}

#[test]
fn a_node_is_deleted_by_its_deleter() {
    let log = Log::new();
    let node = RetiredNode::new(24, log.deleter());
    assert_eq!(node.address(), 24);
    node.delete();
    assert_eq!(log.taken(), vec![24]);
}

#[test]
fn the_last_node_takes_the_place_of_a_deleted_one() {
    let log = Log::new();
    let mut list = RetiredList::default();
    for ptr in [1, 2, 3, 4, 5] {
        list.push(ptr, log.deleter());
    }
    list.reclaim(&HashSet::from([2, 5]));
    assert_eq!(list.len(), 2);
    assert_eq!(log.taken(), vec![1, 3, 4]);

    list.force_reclaim_all();
    assert_eq!(list.len(), 0);
    assert_eq!(log.taken(), vec![5, 2]);
}

#[test]
fn an_address_that_is_retired_twice_is_kept_twice() {
    let log = Log::new();
    let mut list = RetiredList::new();
    for ptr in [8, 16, 8] {
        list.push(ptr, log.deleter());
    }
    list.reclaim(&HashSet::from([8]));
    assert_eq!(list.len(), 2);
    assert_eq!(log.taken(), vec![16]);
    list.reclaim(&HashSet::new());
    assert_eq!(log.taken(), vec![8, 8]);
}

#[test]
fn reclaiming_an_empty_list_does_nothing() {
    let mut list: RetiredList<Deleter> = RetiredList::new();
    list.reclaim(&HashSet::from([8]));
    list.force_reclaim_all();
    assert_eq!(list.len(), 0);
}

#[test]
fn reclaiming_is_due_at_the_threshold() {
    assert!(!reclaim_due(4, 5));
    assert!(reclaim_due(5, 5));
    assert!(reclaim_due(6, 5));
    assert!(reclaim_due(0, 0));
    assert!(!reclaim_due(usize::MAX - 1, usize::MAX));
}

#[test]
fn acquiring_walks_the_list_to_a_free_slot() {
    let state = Acquire::start();
    assert!(matches!(state, Acquire::LoadHead));
    let state = state.advance(AcquireEvent::Link { link: Some(2) });
    assert!(matches!(state, Acquire::Claim { slot: 2 }));
    let state = state.advance(AcquireEvent::Claimed { taken: false });
    assert!(matches!(state, Acquire::LoadNext { slot: 2 }));
    let state = state.advance(AcquireEvent::Link { link: Some(1) });
    assert!(matches!(state, Acquire::Claim { slot: 1 }));
    let state = state.advance(AcquireEvent::Claimed { taken: true });
    assert!(matches!(state, Acquire::Done { slot: 1 }));
}

#[test]
fn acquiring_links_a_new_slot_at_the_end_of_the_list() {
    let state = Acquire::start().advance(AcquireEvent::Link { link: Some(0) });
    let state = state.advance(AcquireEvent::Claimed { taken: false });
    let state = state.advance(AcquireEvent::Link { link: None });
    assert!(matches!(state, Acquire::Allocate));
    let state = state.advance(AcquireEvent::Allocated { slot: 1 });
    assert!(matches!(state, Acquire::ReloadHead { slot: 1 }));
    let state = state.advance(AcquireEvent::Link { link: Some(0) });
    assert!(matches!(state, Acquire::StoreNext { slot: 1, head: Some(0) }));
    let state = state.advance(AcquireEvent::Stored);
    assert!(matches!(state, Acquire::SwapHead { slot: 1, head: Some(0) }));
    let state = state.advance(AcquireEvent::Swapped { linked: true });
    assert!(matches!(state, Acquire::Done { slot: 1 }));
}

#[test]
fn acquiring_loads_the_head_again_when_it_has_moved() {
    let state = Acquire::start().advance(AcquireEvent::Link { link: None });
    assert!(matches!(state, Acquire::Allocate));
    let state = state.advance(AcquireEvent::Allocated { slot: 0 });
    let state = state.advance(AcquireEvent::Link { link: None });
    let state = state.advance(AcquireEvent::Stored);
    let state = state.advance(AcquireEvent::Swapped { linked: false });
    assert!(matches!(state, Acquire::ReloadHead { slot: 0 }));
    let state = state.advance(AcquireEvent::Link { link: Some(1) });
    assert!(matches!(state, Acquire::StoreNext { slot: 0, head: Some(1) }));
}

#[test]
fn protecting_tries_again_when_the_pointer_has_changed() {
    let state = Protect::start().advance(ProtectEvent::Loaded { ptr: 8 });
    assert!(matches!(state, Protect::Publish { ptr: 8 }));
    let state = state.advance(ProtectEvent::Stored);
    assert!(matches!(state, Protect::Validate { ptr: 8 }));
    let state = state.advance(ProtectEvent::Loaded { ptr: 16 });
    assert!(matches!(state, Protect::Load));
    let state = state.advance(ProtectEvent::Loaded { ptr: 16 });
    let state = state.advance(ProtectEvent::Stored);
    let state = state.advance(ProtectEvent::Loaded { ptr: 16 });
    assert!(matches!(state, Protect::Done { guarded: Some(16) }));
}

#[test]
fn protecting_clears_the_slot_when_the_pointer_becomes_null() {
    let state = Protect::start().advance(ProtectEvent::Loaded { ptr: 8 });
    let state = state.advance(ProtectEvent::Stored);
    let state = state.advance(ProtectEvent::Loaded { ptr: 0 });
    assert!(matches!(state, Protect::Load));
    let state = state.advance(ProtectEvent::Loaded { ptr: 0 });
    assert!(matches!(state, Protect::Clear));
    let state = state.advance(ProtectEvent::Stored);
    assert!(matches!(state, Protect::Done { guarded: None }));
}

#[test]
fn pinning_an_address_needs_no_validation() {
    let state = Protect::start_at(8);
    assert!(matches!(state, Protect::Pin { ptr: 8 }));
    let state = state.advance(ProtectEvent::Stored);
    assert!(matches!(state, Protect::Done { guarded: Some(8) }));

    let state = Protect::start_at(0);
    assert!(matches!(state, Protect::Clear));
}

#[test]
fn collecting_starts_over_when_the_head_has_moved() {
    let mut walk = Collect::start();
    walk.advance(CollectEvent::Link { link: Some(1) });
    assert!(matches!(walk.phase(), CollectPhase::LoadProtected { slot: 1, head: Some(1) }));
    walk.advance(CollectEvent::Protected { address: 8 });
    assert!(matches!(walk.phase(), CollectPhase::LoadNext { slot: 1, head: Some(1) }));
    walk.advance(CollectEvent::Link { link: Some(0) });
    walk.advance(CollectEvent::Protected { address: 0 });
    walk.advance(CollectEvent::Link { link: None });
    assert!(matches!(walk.phase(), CollectPhase::Recheck { head: Some(1) }));
    walk.advance(CollectEvent::Link { link: Some(2) });
    assert!(matches!(walk.phase(), CollectPhase::LoadHead));

    walk.advance(CollectEvent::Link { link: Some(2) });
    walk.advance(CollectEvent::Protected { address: 24 });
    walk.advance(CollectEvent::Link { link: None });
    walk.advance(CollectEvent::Link { link: Some(2) });
    assert!(matches!(walk.phase(), CollectPhase::Done));
    assert_eq!(walk.finish(), HashSet::from([24]));
}

#[test]
fn collecting_from_an_empty_list_gathers_nothing() {
    let mut walk = Collect::start();
    walk.advance(CollectEvent::Link { link: None });
    assert!(matches!(walk.phase(), CollectPhase::Recheck { head: None }));
    walk.advance(CollectEvent::Link { link: None });
    assert!(matches!(walk.phase(), CollectPhase::Done));
    assert_eq!(walk.finish(), HashSet::new());
}

#[test]
fn the_newest_free_slot_is_taken_first() {
    let mut domain: HazardDomain<Deleter> = HazardDomain::new();
    assert_eq!(domain.acquire(), 0);
    assert_eq!(domain.acquire(), 1);
    assert_eq!(domain.acquire(), 2);
    domain.release(0);
    domain.release(1);
    assert_eq!(domain.acquire(), 1);
    assert_eq!(domain.acquire(), 0);
    assert_eq!(domain.acquire(), 3);
}

#[test]
fn releasing_a_hazard_pointer_withdraws_its_protection() {
    let log = Log::new();
    let mut domain = HazardDomain::with_threshold(1000);
    let hp = HazardPointer::new(&mut domain);
    let guard = hp.protect_ptr(&mut domain, 8).unwrap();
    assert_eq!(guard.as_ptr(), 8);
    domain.retire_with_deleter(8, log.deleter());
    domain.reclaim();
    assert_eq!(log.taken(), vec![]);

    hp.release(&mut domain);
    domain.reclaim();
    assert_eq!(log.taken(), vec![8]);
}

#[test]
fn protecting_null_withdraws_the_protection() {
    let log = Log::new();
    let mut domain = HazardDomain::with_threshold(1000);
    let hp = HazardPointer::new(&mut domain);
    assert!(hp.protect(&mut domain, &8).is_some());
    domain.retire_with_deleter(8, log.deleter());
    assert!(hp.protect(&mut domain, &0).is_none());
    domain.reclaim();
    assert_eq!(log.taken(), vec![8]);
}

#[test]
fn reaching_the_threshold_spares_what_is_protected() {
    let log = Log::new();
    let mut domain = HazardDomain::with_threshold(3);
    let hp = HazardPointer::new(&mut domain);
    assert!(hp.protect(&mut domain, &16).is_some());
    domain.retire_with_deleter(8, log.deleter());
    domain.retire_with_deleter(16, log.deleter());
    assert_eq!(domain.retired_count(), 2);
    domain.retire_with_deleter(24, log.deleter());
    assert_eq!(domain.retired_count(), 1);
    assert_eq!(log.taken(), vec![8, 24]);
}

#[test]
fn releasing_withdraws_before_it_frees() {
    let state = Release::start();
    assert!(matches!(state, Release::Withdraw));
    let state = state.advance();
    assert!(matches!(state, Release::Free));
    let state = state.advance();
    assert!(matches!(state, Release::Done));
}

#[test]
fn releasing_a_slot_twice_changes_nothing_more() {
    let mut slot = HazardSlot { protected: 24, next: Some(5), active: SLOT_ACQUIRED };
    slot.release();
    assert_eq!((slot.protected, slot.next, slot.active), (0, Some(5), SLOT_FREE));
    slot.release();
    assert_eq!((slot.protected, slot.next, slot.active), (0, Some(5), SLOT_FREE));
}

#[test]
fn reclaiming_locks_then_collects_then_sweeps() {
    let state = Reclaim::start();
    assert!(matches!(state, Reclaim::Lock));
    let state = state.advance(ReclaimEvent::Locked);
    assert!(matches!(state, Reclaim::Collect));
    let state = state.advance(ReclaimEvent::Collected { seen: HashSet::from([8, 16]) });
    assert!(matches!(&state, Reclaim::Sweep { seen } if *seen == HashSet::from([16, 8])));
    let state = state.advance(ReclaimEvent::Swept);
    assert!(matches!(state, Reclaim::Unlock));
    let state = state.advance(ReclaimEvent::Unlocked);
    assert!(matches!(state, Reclaim::Done));
}

#[test]
fn retiring_into_a_list_says_when_the_threshold_is_reached() {
    let log = Log::new();
    let mut list = RetiredList::new();
    assert!(!list.retire(8, log.deleter(), 2));
    assert!(list.retire(16, log.deleter(), 2));
    assert!(list.retire(24, log.deleter(), 2));
    assert_eq!(list.len(), 3);
    list.force_reclaim_all();
    assert_eq!(log.taken(), vec![8, 16, 24]);
}

#[test]
fn over_its_life_a_domain_deletes_each_retired_object_once() {
    let log = Log::new();
    let mut deleted = Vec::new();
    let mut domain = HazardDomain::with_threshold(3);
    let hp = HazardPointer::new(&mut domain);
    assert!(hp.protect_ptr(&mut domain, 8).is_some());
    for (i, ptr) in [8, 16, 24, 8, 32].into_iter().enumerate() {
        domain.retire_with_deleter(ptr, log.deleter());
        deleted.extend(log.taken());
        assert_eq!(domain.retired_count(), i + 1 - deleted.len());
    }
    assert_eq!(deleted, vec![16, 24, 32]);
    domain.teardown();
    deleted.extend(log.taken());
    assert_eq!(domain.retired_count(), 0);
    deleted.sort();
    assert_eq!(deleted, vec![8, 8, 16, 24, 32]);
}

#[test]
fn giving_up_a_guard_leaves_what_another_owner_protects() {
    let log = Log::new();
    let mut domain = HazardDomain::with_threshold(1000);
    let first = HazardPointer::new(&mut domain);
    let guard = first.protect(&mut domain, &8).unwrap();
    guard.release(&mut domain);
    first.release(&mut domain);

    let second = HazardPointer::new(&mut domain);
    let third = HazardPointer::new(&mut domain);
    let kept = second.protect(&mut domain, &16).unwrap();
    let given_up = third.protect(&mut domain, &24).unwrap();
    domain.retire_with_deleter(16, log.deleter());
    domain.retire_with_deleter(24, log.deleter());
    given_up.release(&mut domain);
    domain.reclaim();
    assert_eq!(log.taken(), vec![24]);

    kept.release(&mut domain);
    domain.reclaim();
    assert_eq!(log.taken(), vec![16]);
}
