//! What holds of a domain across its operations.

use crate::domain::DomainState;
use crate::hazard::{HazardSlot, SLOT_FREE};
use crate::memory::Memory;
use crate::protect::{Protect, ProtectEvent};
use crate::release::Release;
use crate::retired::{RetiredNode, Sweep};
use vstd::prelude::*;

verus! {

broadcast use {
    vstd::multiset::group_multiset_axioms,
    vstd::seq_lib::to_multiset_contains,
    vstd::seq_lib::to_multiset_len,
};

/// Taking the item at `i` out takes one occurrence of it out.
proof fn swap_removed_multiset<T>(items: Seq<T>, i: int)
    requires
        0 <= i < items.len(),
    ensures
        items.to_multiset() == crate::memory::swap_removed(items, i).to_multiset().insert(items[i]),
        crate::memory::swap_removed(items, i).len() == items.len() - 1,
{
    let updated = items.update(i, items.last());
    let rest = crate::memory::swap_removed(items, i);
    vstd::seq_lib::to_multiset_update(items, i, items.last());
    assert(rest.push(items.last()) =~= updated);
    vstd::seq_lib::to_multiset_build(rest, items.last());
    assert(items.contains(items[i]));
    assert(items.to_multiset().count(items[i]) > 0);
    assert forall|v: T| #[trigger] items.to_multiset().count(v) == rest.to_multiset().insert(
        items[i],
    ).count(v) by {
        assert(updated.to_multiset().count(v) == rest.to_multiset().insert(items.last()).count(v));
        assert(updated.to_multiset().count(v) == items.to_multiset().insert(items.last()).remove(
            items[i],
        ).count(v));
    }
    assert(items.to_multiset() =~= rest.to_multiset().insert(items[i]));
}

/// A node keeps its place in the list exactly if its address is protected;
/// every other node is deleted. No node is lost, and none is deleted twice.
pub proof fn law_sweep_splits<D>(nodes: Seq<RetiredNode<D>>, i: int, protected: Set<usize>)
    requires
        0 <= i <= nodes.len(),
        forall|k: int| 0 <= k < i ==> protected.contains((#[trigger] nodes[k]).ptr),
    ensures
        ({
            let pass = Sweep::from(nodes, i, protected);
            &&& forall|k: int|
                0 <= k < pass.kept.len() ==> protected.contains((#[trigger] pass.kept[k]).ptr)
            &&& forall|k: int|
                0 <= k < pass.deleted.len() ==> !protected.contains((#[trigger] pass.deleted[k]).ptr)
            &&& nodes.to_multiset() == pass.kept.to_multiset().add(pass.deleted.to_multiset())
        }),
    decreases nodes.len() - i,
{
    let pass = Sweep::from(nodes, i, protected);
    if i == nodes.len() {
        assert(nodes.to_multiset() =~= pass.kept.to_multiset().add(pass.deleted.to_multiset()));
    } else if protected.contains(nodes[i].ptr) {
        law_sweep_splits(nodes, i + 1, protected);
    } else {
        let rest_nodes = crate::memory::swap_removed(nodes, i);
        let rest = Sweep::from(rest_nodes, i, protected);
        law_sweep_splits(rest_nodes, i, protected);
        swap_removed_multiset(nodes, i);
        assert(pass.deleted == seq![nodes[i]] + rest.deleted);
        assert(pass.deleted.drop_first() =~= rest.deleted);
        assert(pass.deleted.to_multiset() =~= rest.deleted.to_multiset().insert(nodes[i])) by {
            vstd::seq_lib::to_multiset_insert(rest.deleted, 0, nodes[i]);
            assert(rest.deleted.insert(0, nodes[i]) =~= pass.deleted);
        }
        assert(nodes.to_multiset() =~= pass.kept.to_multiset().add(pass.deleted.to_multiset()));
    }
}

/// What a pass leaves in the list are the protected nodes, each as often as it
/// was there; what it deletes are the others.
pub proof fn law_sweep_keeps_protected<D>(nodes: Seq<RetiredNode<D>>, protected: Set<usize>)
    ensures
        Sweep::over(nodes, protected).kept.to_multiset() == nodes.to_multiset().filter(
            |node: RetiredNode<D>| protected.contains(node.ptr),
        ),
        Sweep::over(nodes, protected).deleted.to_multiset() == nodes.to_multiset().filter(
            |node: RetiredNode<D>| !protected.contains(node.ptr),
        ),
{
    let pass = Sweep::over(nodes, protected);
    law_sweep_splits(nodes, 0, protected);
    assert forall|node: RetiredNode<D>| protected.contains(node.ptr) implies #[trigger]
        pass.deleted.to_multiset().count(node) == 0 by {
        assert(!pass.deleted.contains(node));
    }
    assert forall|node: RetiredNode<D>| !protected.contains(node.ptr) implies #[trigger]
        pass.kept.to_multiset().count(node) == 0 by {
        assert(!pass.kept.contains(node));
    }
    assert(pass.kept.to_multiset() =~= nodes.to_multiset().filter(
        |node: RetiredNode<D>| protected.contains(node.ptr),
    ));
    assert(pass.deleted.to_multiset() =~= nodes.to_multiset().filter(
        |node: RetiredNode<D>| !protected.contains(node.ptr),
    ));
}

/// What a reclamation does to one node: a protected one stays in the list, any
/// other goes from there to the deleted.
pub proof fn law_reclaim_by_protection<D>(domain: DomainState<D>, node: RetiredNode<D>)
    ensures
        ({
            let after = domain.reclaimed();
            let waiting = domain.retired.to_multiset().count(node);
            let gone = domain.deleted.to_multiset().count(node);
            if domain.protected().contains(node.ptr) {
                &&& after.retired.to_multiset().count(node) == waiting
                &&& after.deleted.to_multiset().count(node) == gone
            } else {
                &&& after.retired.to_multiset().count(node) == 0
                &&& after.deleted.to_multiset().count(node) == gone + waiting
            }
        }),
{
    let pass = Sweep::over(domain.retired, domain.protected());
    law_sweep_splits(domain.retired, 0, domain.protected());
    vstd::seq_lib::lemma_multiset_commutative(domain.deleted, pass.deleted);
    if domain.protected().contains(node.ptr) {
        assert(!pass.deleted.contains(node));
    } else {
        assert(!pass.kept.contains(node));
    }
}

/// A reclamation leaves nothing for a second one to do.
pub proof fn law_reclaim_is_idempotent<D>(domain: DomainState<D>)
    ensures
        domain.reclaimed().reclaimed() == domain.reclaimed(),
{
    let after = domain.reclaimed();
    law_sweep_splits(domain.retired, 0, domain.protected());
    all_protected_stay(after.retired, 0, after.protected());
    assert(after.reclaimed().deleted =~= after.deleted);
}

/// A list of protected nodes is left as it is.
pub(crate) proof fn all_protected_stay<D>(nodes: Seq<RetiredNode<D>>, i: int, protected: Set<usize>)
    requires
        0 <= i <= nodes.len(),
        forall|k: int| 0 <= k < nodes.len() ==> protected.contains((#[trigger] nodes[k]).ptr),
    ensures
        Sweep::from(nodes, i, protected) == (Sweep { kept: nodes, deleted: Seq::empty() }),
    decreases nodes.len() - i,
{
    if i < nodes.len() {
        all_protected_stay(nodes, i + 1, protected);
    }
}

/// Every object ever retired is either waiting or deleted, and never both:
/// reclaiming moves objects from the one to the other.
pub proof fn law_reclaim_conserves<D>(domain: DomainState<D>)
    ensures
        domain.reclaimed().retired.to_multiset().add(domain.reclaimed().deleted.to_multiset())
            == domain.retired.to_multiset().add(domain.deleted.to_multiset()),
{
    let after = domain.reclaimed();
    let pass = Sweep::over(domain.retired, domain.protected());
    law_sweep_splits(domain.retired, 0, domain.protected());
    vstd::seq_lib::lemma_multiset_commutative(domain.deleted, pass.deleted);
    assert(after.retired.to_multiset().add(after.deleted.to_multiset())
        =~= domain.retired.to_multiset().add(domain.deleted.to_multiset()));
}

/// Retiring an object adds it, and nothing else, to the objects that are
/// waiting or deleted.
pub proof fn law_retire_adds_one<D>(domain: DomainState<D>, node: RetiredNode<D>)
    ensures
        ({
            let after = domain.retired_with(node);
            after.retired.to_multiset().add(after.deleted.to_multiset())
                == domain.retired.to_multiset().add(domain.deleted.to_multiset()).insert(node)
        }),
{
    let added = DomainState { retired: domain.retired.push(node), ..domain };
    let after = domain.retired_with(node);
    law_reclaim_conserves(added);
    vstd::seq_lib::to_multiset_build(domain.retired, node);
    assert(after.retired.to_multiset().add(after.deleted.to_multiset())
        =~= domain.retired.to_multiset().add(domain.deleted.to_multiset()).insert(node));
}

/// Below the threshold nothing is deleted; at the threshold everything that
/// is not protected is, so a list that is still that long is all protected.
pub proof fn law_retire_keeps_to_threshold<D>(domain: DomainState<D>, node: RetiredNode<D>)
    ensures
        ({
            let after = domain.retired_with(node);
            if domain.retired.len() + 1 < domain.threshold {
                &&& after.retired == domain.retired.push(node)
                &&& after.deleted == domain.deleted
            } else {
                forall|k: int|
                    0 <= k < after.retired.len() ==> domain.protected().contains(
                        (#[trigger] after.retired[k]).ptr,
                    )
            }
        }),
{
    law_sweep_splits(domain.retired.push(node), 0, domain.protected());
}

/// Ending a domain deletes everything that waits, protected or not.
pub proof fn law_teardown_deletes_all<D>(domain: DomainState<D>, node: RetiredNode<D>)
    ensures
        domain.torn_down().retired.len() == 0,
        domain.torn_down().deleted.to_multiset().count(node)
            == domain.deleted.to_multiset().count(node) + domain.retired.to_multiset().count(node),
{
    vstd::seq_lib::lemma_multiset_commutative(domain.deleted, domain.retired);
}

/// A published address is protected, and what is retired there survives
/// the next reclamation.
pub proof fn law_published_is_protected<D>(
    domain: DomainState<D>,
    slot: usize,
    node: RetiredNode<D>,
)
    requires
        domain.owns(slot),
        node.ptr != 0,
    ensures
        domain.published(slot, node.ptr).protected().contains(node.ptr),
        domain.published(slot, node.ptr).reclaimed().retired.to_multiset().count(node)
            == domain.retired.to_multiset().count(node),
{
    let guarded = domain.published(slot, node.ptr);
    assert(guarded.memory.slots[slot as int].protected == node.ptr);
    law_reclaim_by_protection(guarded, node);
}

/// What a slot protects is changed by no operation but those on the slot
/// itself: others may acquire, publish in and release other slots, retire and
/// reclaim.
pub proof fn law_protection_lasts<D>(
    domain: DomainState<D>,
    slot: usize,
    other: usize,
    address: usize,
    node: RetiredNode<D>,
)
    requires
        domain.owns(slot),
        domain.owns(other),
        slot != other,
    ensures
        domain.acquired().memory.slots[slot as int] == domain.memory.slots[slot as int],
        domain.published(other, address).memory.slots[slot as int]
            == domain.memory.slots[slot as int],
        domain.released(other).memory.slots[slot as int] == domain.memory.slots[slot as int],
        domain.retired_with(node).memory == domain.memory,
        domain.reclaimed().memory == domain.memory,
{
    if domain.memory.has_free() {
        domain.memory.first_free_exists();
    }
}

/// A second publication replaces the first: a slot protects one address.
pub proof fn law_publishing_overwrites<D>(
    domain: DomainState<D>,
    slot: usize,
    first: usize,
    second: usize,
)
    requires
        domain.owns(slot),
    ensures
        domain.published(slot, first).published(slot, second) == domain.published(slot, second),
{
    assert(domain.published(slot, first).published(slot, second).memory =~= domain.published(
        slot,
        second,
    ).memory);
}

/// Once its slot is cleared an address is protected only by other slots.
pub proof fn law_clearing_leaves_other_guards<D>(domain: DomainState<D>, slot: usize, ptr: usize)
    requires
        domain.owns(slot),
        ptr != 0,
    ensures
        domain.published(slot, 0).protected().contains(ptr) <==> exists|i: int|
            0 <= i < domain.memory.slots.len() && i != slot && (
            #[trigger] domain.memory.slots[i]).protected == ptr,
{
    let cleared = domain.published(slot, 0);
    if cleared.protected().contains(ptr) {
        let i = choose|i: int|
            0 <= i < cleared.memory.slots.len() && (#[trigger] cleared.memory.slots[i]).protected
                == ptr;
        assert(i != slot && domain.memory.slots[i].protected == ptr);
    }
    if exists|i: int|
        0 <= i < domain.memory.slots.len() && i != slot && (
        #[trigger] domain.memory.slots[i]).protected == ptr {
        let i = choose|i: int|
            0 <= i < domain.memory.slots.len() && i != slot && (
            #[trigger] domain.memory.slots[i]).protected == ptr;
        assert(cleared.memory.slots[i].protected == ptr);
    }
}

/// Acquiring takes a slot that nobody owned and leaves the other slots, and
/// their owners, alone.
pub proof fn law_acquired_slot_is_exclusive<D>(domain: DomainState<D>, other: usize)
    requires
        domain.memory.slots.len() <= usize::MAX,
        other != domain.memory.slot_to_acquire(),
    ensures
        ({
            let slot = domain.memory.slot_to_acquire() as usize;
            &&& !domain.owns(slot)
            &&& domain.acquired().owns(slot)
            &&& domain.acquired().owns(other) == domain.owns(other)
        }),
{
    if domain.memory.has_free() {
        domain.memory.first_free_exists();
    }
}

/// Giving a slot back leaves it free and protecting nothing, keeps its link, and
/// does nothing more the second time.
pub proof fn law_release_is_idempotent(slot: HazardSlot)
    ensures
        slot.after_release(Release::Withdraw).after_release(Release::Free) == slot.released(),
        slot.released().is_free(),
        slot.released().protected == 0,
        slot.released().next == slot.next,
        slot.released().released() == slot.released(),
{
}

/// No store on the way to giving a slot back leaves it free while it still
/// protects.
pub proof fn law_release_stays_settled(slot: HazardSlot)
    requires
        slot.settled(),
    ensures
        slot.after_release(Release::Withdraw).settled(),
        slot.after_release(Release::Withdraw).after_release(Release::Withdraw.after()).settled(),
        Release::Withdraw.after().after() is Done,
{
}

/// A domain with a free slot grows no further: the slot is used again.
pub proof fn law_released_slot_is_reused<D>(domain: DomainState<D>, slot: usize)
    requires
        domain.memory.has(slot),
    ensures
        domain.released(slot).memory.has_free(),
        domain.released(slot).acquired().memory.slots.len() == domain.memory.slots.len(),
{
    assert(domain.released(slot).memory.slots[slot as int].is_free());
    domain.released(slot).memory.first_free_exists();
}

/// Releasing what was just acquired puts the slots back: as they were, or with
/// one more that is free.
pub proof fn law_release_undoes_acquire<D>(domain: DomainState<D>)
    requires
        domain.memory.slots.len() <= usize::MAX,
        forall|i: int|
            0 <= i < domain.memory.slots.len() ==> (#[trigger] domain.memory.slots[i]).settled(),
    ensures
        ({
            let slot = domain.memory.slot_to_acquire() as usize;
            let after = domain.acquired().released(slot);
            if domain.memory.has_free() {
                after == domain
            } else {
                after == (DomainState {
                    memory: Memory {
                        slots: domain.memory.slots.push(
                            HazardSlot {
                                protected: 0,
                                next: domain.memory.head,
                                active: SLOT_FREE,
                            },
                        ),
                        head: Some(slot),
                    },
                    ..domain
                })
            }
        }),
{
    let slot = domain.memory.slot_to_acquire() as usize;
    let after = domain.acquired().released(slot);
    if domain.memory.has_free() {
        domain.memory.first_free_exists();
        assert(after.memory.slots =~= domain.memory.slots);
    } else {
        assert(after.memory.slots =~= domain.memory.slots.push(
            HazardSlot { protected: 0, next: domain.memory.head, active: SLOT_FREE },
        ));
    }
}

/// However a shared pointer changes meanwhile, a thread that ends with a guard
/// on `ptr` loaded `ptr`, which is not null, published it, and then loaded
/// `ptr` again.
pub proof fn law_guard_is_validated(events: Seq<ProtectEvent>, ptr: usize)
    requires
        Protect::Load.awaits_all(events),
        Protect::Load.after_all(events) == (Protect::Done { guarded: Some(ptr) }),
    ensures
        ptr != 0,
        events.len() >= 3,
        events[events.len() - 3] == (ProtectEvent::Loaded { ptr }),
        events[events.len() - 2] == ProtectEvent::Stored,
        events[events.len() - 1] == (ProtectEvent::Loaded { ptr }),
{
    reveal_with_fuel(Protect::after_all, 4);
    reveal_with_fuel(Protect::awaits_all, 4);
    load_never_pins(events.drop_last());
}

/// However a shared pointer changes meanwhile, a thread that ends without a
/// guard loaded null and cleared its slot.
pub proof fn law_no_guard_only_for_null(events: Seq<ProtectEvent>)
    requires
        Protect::Load.awaits_all(events),
        Protect::Load.after_all(events) == (Protect::Done { guarded: None }),
    ensures
        events.len() >= 2,
        events[events.len() - 2] == (ProtectEvent::Loaded { ptr: 0 }),
        events[events.len() - 1] == ProtectEvent::Stored,
{
    reveal_with_fuel(Protect::after_all, 3);
    reveal_with_fuel(Protect::awaits_all, 3);
}

proof fn load_never_pins(events: Seq<ProtectEvent>)
    ensures
        Protect::Load.after_all(events) !is Pin,
    decreases events.len(),
{
    if events.len() > 0 {
        load_never_pins(events.drop_last());
    }
}

} // verus!
