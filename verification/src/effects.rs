//! What each operation changes, and that it changes nothing else.
//!
//! The laws speak of the parts of a state alone: its slots, its lists and its
//! threshold.

use crate::acquire::{Acquire, AcquireEvent};
use crate::collect::{CollectEvent, CollectPhase, CollectState};
use crate::domain::DomainState;
use crate::hazard::{HazardSlot, SLOT_ACQUIRED, SLOT_FREE};
use crate::history::Operation;
use crate::protect::{Protect, ProtectEvent};
use crate::reclaim::{ReclaimOutcome, ReclaimState, ReclaimTask};
use crate::release::Release;
use crate::retired::{RetiredNode, Sweep};
use crate::thread_local::GlobalsState;
use vstd::prelude::*;

verus! {

broadcast use {
    vstd::multiset::group_multiset_axioms,
    vstd::seq_lib::to_multiset_contains,
    vstd::seq_lib::to_multiset_len,
};

/// A new domain has no slots and no objects, and the threshold that it was made
/// with.
pub proof fn law_new_domain_is_empty<D>(threshold: usize)
    ensures
        ({
            let domain = DomainState::<D>::empty(threshold);
            &&& domain.memory.slots.len() == 0
            &&& domain.memory.head is None
            &&& domain.retired.len() == 0
            &&& domain.deleted.len() == 0
            &&& domain.threshold == threshold
        }),
{
}

/// An address is protected if it is not null and some slot holds it, and not
/// otherwise.
pub proof fn law_protected_is_in_a_slot<D>(domain: DomainState<D>, address: usize)
    ensures
        domain.protected().contains(address) <==> address != 0 && exists|i: int|
            0 <= i < domain.memory.slots.len() && (#[trigger] domain.memory.slots[i]).protected
                == address,
{
}

/// A slot is owned if there is one of that number and it is marked so.
pub proof fn law_owned_is_marked<D>(domain: DomainState<D>, slot: usize)
    ensures
        domain.owns(slot) <==> slot < domain.memory.slots.len()
            && domain.memory.slots[slot as int].active == SLOT_ACQUIRED,
        SLOT_ACQUIRED != SLOT_FREE,
{
}

/// Storing an address in a slot changes what that slot protects, and nothing
/// else.
pub proof fn law_publish_changes_one_slot<D>(domain: DomainState<D>, slot: usize, address: usize)
    requires
        slot < domain.memory.slots.len(),
    ensures
        ({
            let after = domain.published(slot, address);
            let was = domain.memory.slots[slot as int];
            &&& after.memory.slots.len() == domain.memory.slots.len()
            &&& after.memory.slots[slot as int] == (HazardSlot {
                protected: address,
                next: was.next,
                active: was.active,
            })
            &&& forall|i: int|
                0 <= i < domain.memory.slots.len() && i != slot ==> (
                #[trigger] after.memory.slots[i]) == domain.memory.slots[i]
            &&& after.memory.head == domain.memory.head
            &&& after.retired == domain.retired
            &&& after.deleted == domain.deleted
            &&& after.threshold == domain.threshold
        }),
{
}

/// Giving a slot back frees it and withdraws its protection, and changes nothing
/// else.
pub proof fn law_release_changes_one_slot<D>(domain: DomainState<D>, slot: usize)
    requires
        slot < domain.memory.slots.len(),
    ensures
        ({
            let after = domain.released(slot);
            let was = domain.memory.slots[slot as int];
            &&& after.memory.slots.len() == domain.memory.slots.len()
            &&& after.memory.slots[slot as int] == (HazardSlot {
                protected: 0,
                next: was.next,
                active: SLOT_FREE,
            })
            &&& forall|i: int|
                0 <= i < domain.memory.slots.len() && i != slot ==> (
                #[trigger] after.memory.slots[i]) == domain.memory.slots[i]
            &&& after.memory.head == domain.memory.head
            &&& after.retired == domain.retired
            &&& after.deleted == domain.deleted
            &&& after.threshold == domain.threshold
        }),
{
}

/// If a slot is free, acquiring marks the free slot of the highest number, and
/// changes nothing else.
pub proof fn law_acquire_takes_free_slot<D>(domain: DomainState<D>, free: int)
    requires
        domain.memory.slots.len() <= usize::MAX,
        0 <= free < domain.memory.slots.len(),
        domain.memory.slots[free].active == SLOT_FREE,
    ensures
        ({
            let after = domain.acquired();
            let slot = domain.memory.slot_to_acquire();
            &&& free <= slot < domain.memory.slots.len()
            &&& domain.memory.slots[slot].active == SLOT_FREE
            &&& after.memory.slots.len() == domain.memory.slots.len()
            &&& after.memory.slots[slot] == (HazardSlot {
                protected: domain.memory.slots[slot].protected,
                next: domain.memory.slots[slot].next,
                active: SLOT_ACQUIRED,
            })
            &&& forall|i: int|
                0 <= i < domain.memory.slots.len() && i != slot ==> (
                #[trigger] after.memory.slots[i]) == domain.memory.slots[i]
            &&& after.memory.head == domain.memory.head
            &&& after.retired == domain.retired
            &&& after.deleted == domain.deleted
            &&& after.threshold == domain.threshold
        }),
{
    assert(domain.memory.slots[free].is_free());
    domain.memory.first_free_exists();
}

/// If no slot is free, acquiring adds one slot in front of the list, owned and
/// protecting nothing, and changes nothing else.
pub proof fn law_acquire_adds_slot<D>(domain: DomainState<D>)
    requires
        domain.memory.slots.len() <= usize::MAX,
        forall|i: int|
            0 <= i < domain.memory.slots.len() ==> (#[trigger] domain.memory.slots[i]).active
                != SLOT_FREE,
    ensures
        ({
            let after = domain.acquired();
            let slot = domain.memory.slots.len();
            &&& domain.memory.slot_to_acquire() == slot
            &&& after.memory.slots.len() == slot + 1
            &&& after.memory.slots[slot as int] == (HazardSlot {
                protected: 0,
                next: domain.memory.head,
                active: SLOT_ACQUIRED,
            })
            &&& forall|i: int|
                0 <= i < slot ==> (#[trigger] after.memory.slots[i]) == domain.memory.slots[i]
            &&& after.memory.head == Some(slot as usize)
            &&& after.retired == domain.retired
            &&& after.deleted == domain.deleted
            &&& after.threshold == domain.threshold
        }),
{
    if domain.memory.has_free() {
        let i = choose|i: int|
            0 <= i < domain.memory.slots.len() && (#[trigger] domain.memory.slots[i]).is_free();
        assert(domain.memory.slots[i].active != SLOT_FREE);
    }
}

/// A reclamation keeps every object whose address a slot holds, as often as it
/// waits, and deletes every other; what was deleted before comes first. The
/// slots and the threshold stay as they are.
pub proof fn law_reclaim_spares_what_slots_hold<D>(domain: DomainState<D>, node: RetiredNode<D>)
    ensures
        ({
            let after = domain.reclaimed();
            let held = node.ptr != 0 && exists|i: int|
                0 <= i < domain.memory.slots.len() && (#[trigger] domain.memory.slots[i]).protected
                    == node.ptr;
            let waiting = domain.retired.to_multiset().count(node);
            let gone = domain.deleted.to_multiset().count(node);
            &&& after.memory == domain.memory
            &&& after.threshold == domain.threshold
            &&& after.deleted.len() >= domain.deleted.len()
            &&& after.deleted.take(domain.deleted.len() as int) == domain.deleted
            &&& after.retired.to_multiset().count(node) == if held { waiting } else { 0 }
            &&& after.deleted.to_multiset().count(node) == gone + if held { 0 } else { waiting }
            &&& after.retired.len() + after.deleted.len() == domain.retired.len()
                + domain.deleted.len()
        }),
{
    law_protected_is_in_a_slot(domain, node.ptr);
    crate::laws::law_reclaim_by_protection(domain, node);
    crate::laws::law_reclaim_conserves(domain);
    let after = domain.reclaimed();
    assert(after.deleted.take(domain.deleted.len() as int) =~= domain.deleted);
    assert(after.retired.to_multiset().add(after.deleted.to_multiset()).len()
        == domain.retired.to_multiset().add(domain.deleted.to_multiset()).len());
}

/// While fewer than `threshold` objects wait with the new one, retiring adds it at
/// the end of the list and changes nothing else.
pub proof fn law_retire_below_threshold<D>(domain: DomainState<D>, node: RetiredNode<D>)
    requires
        domain.retired.len() + 1 < domain.threshold,
    ensures
        ({
            let after = domain.retired_with(node);
            &&& after.retired.len() == domain.retired.len() + 1
            &&& after.retired.last() == node
            &&& after.retired.drop_last() == domain.retired
            &&& after.deleted == domain.deleted
            &&& after.memory == domain.memory
            &&& after.threshold == domain.threshold
        }),
{
    assert(domain.retired_with(node).retired.drop_last() =~= domain.retired);
}

/// Once `threshold` objects wait with the new one, retiring keeps every object
/// whose address a slot holds, the new one too, and deletes every other. The
/// slots and the threshold stay as they are.
pub proof fn law_retire_at_threshold<D>(
    domain: DomainState<D>,
    node: RetiredNode<D>,
    any: RetiredNode<D>,
)
    requires
        domain.retired.len() + 1 >= domain.threshold,
    ensures
        ({
            let after = domain.retired_with(node);
            let held = any.ptr != 0 && exists|i: int|
                0 <= i < domain.memory.slots.len() && (#[trigger] domain.memory.slots[i]).protected
                    == any.ptr;
            let waiting = domain.retired.to_multiset().count(any) + if any == node {
                1nat
            } else {
                0
            };
            let gone = domain.deleted.to_multiset().count(any);
            &&& after.memory == domain.memory
            &&& after.threshold == domain.threshold
            &&& after.deleted.len() >= domain.deleted.len()
            &&& after.deleted.take(domain.deleted.len() as int) == domain.deleted
            &&& after.retired.to_multiset().count(any) == if held { waiting } else { 0 }
            &&& after.deleted.to_multiset().count(any) == gone + if held { 0 } else { waiting }
            &&& after.retired.len() + after.deleted.len() == domain.retired.len() + 1
                + domain.deleted.len()
        }),
{
    let added = DomainState { retired: domain.retired.push(node), ..domain };
    vstd::seq_lib::to_multiset_build(domain.retired, node);
    law_reclaim_spares_what_slots_hold(added, any);
}

/// Retiring deletes no object whose address a slot holds, whatever the threshold
/// is: it waits as often as it did, and once more if it is the one retired.
pub proof fn law_retire_never_deletes_protected<D>(
    domain: DomainState<D>,
    node: RetiredNode<D>,
    any: RetiredNode<D>,
    slot: int,
)
    requires
        any.ptr != 0,
        0 <= slot < domain.memory.slots.len(),
        domain.memory.slots[slot].protected == any.ptr,
    ensures
        domain.retired_with(node).deleted.to_multiset().count(any)
            == domain.deleted.to_multiset().count(any),
        domain.retired_with(node).retired.to_multiset().count(any) == domain.retired.push(
            node,
        ).to_multiset().count(any),
{
    vstd::seq_lib::to_multiset_build(domain.retired, node);
    if domain.retired.len() + 1 < domain.threshold {
        law_retire_below_threshold(domain, node);
        assert(domain.retired_with(node).retired =~= domain.retired.push(node));
    } else {
        law_retire_at_threshold(domain, node, any);
    }
}

/// Ending a domain removes its slots and deletes what waits, in the order in
/// which it stands.
pub proof fn law_teardown_empties<D>(domain: DomainState<D>)
    ensures
        ({
            let after = domain.torn_down();
            &&& after.memory.slots.len() == 0
            &&& after.memory.head is None
            &&& after.retired.len() == 0
            &&& after.deleted == domain.deleted + domain.retired
            &&& after.threshold == domain.threshold
        }),
{
}

/// The threshold of a domain never changes.
pub proof fn law_threshold_never_changes<D>(domain: DomainState<D>, operations: Seq<Operation<D>>)
    ensures
        domain.after_all(operations).threshold == domain.threshold,
        DomainState::<D>::empty(domain.threshold).after_all(operations).threshold
            == domain.threshold,
        domain.torn_down().threshold == domain.threshold,
    decreases operations.len(),
{
    if operations.len() > 0 {
        law_threshold_never_changes(domain, operations.drop_last());
    }
}

/// Where no slot protects anything, a domain reclaims at every `threshold`th
/// object that is retired: of `n` objects, `n` modulo the threshold wait and the
/// others are deleted.
pub proof fn law_every_threshold_retires_reclaim<D>(
    domain: DomainState<D>,
    nodes: Seq<RetiredNode<D>>,
)
    requires
        domain.threshold > 0,
        domain.retired.len() == 0,
        forall|i: int|
            0 <= i < domain.memory.slots.len() ==> (#[trigger] domain.memory.slots[i]).protected
                == 0,
    ensures
        ({
            let after = domain.after_all(
                nodes.map_values(|node: RetiredNode<D>| Operation::Retire { node }),
            );
            &&& after.retired.len() == (nodes.len() as int) % (domain.threshold as int)
            &&& after.deleted.len() == domain.deleted.len() + nodes.len() - after.retired.len()
            &&& after.memory == domain.memory
            &&& after.threshold == domain.threshold
        }),
    decreases nodes.len(),
{
    let retire = |node: RetiredNode<D>| Operation::Retire { node };
    let operations = nodes.map_values(retire);
    let t = domain.threshold as int;
    let n = nodes.len() as int;
    if n == 0 {
        vstd::arithmetic::div_mod::lemma_small_mod(0, t as nat);
    } else {
        let node = nodes.last();
        assert(operations.drop_last() =~= nodes.drop_last().map_values(retire));
        law_every_threshold_retires_reclaim(domain, nodes.drop_last());
        let before = domain.after_all(operations.drop_last());
        let after = domain.after_all(operations);
        assert(after == before.retired_with(node));
        let waiting = (n - 1) % t;
        let rounds = (n - 1) / t;
        vstd::arithmetic::div_mod::lemma_fundamental_div_mod(n - 1, t);
        vstd::arithmetic::div_mod::lemma_mod_bound(n - 1, t);
        if waiting + 1 < t {
            law_retire_below_threshold(before, node);
            assert(n == rounds * t + (waiting + 1)) by (nonlinear_arith)
                requires
                    n - 1 == t * rounds + waiting,
            ;
            vstd::arithmetic::div_mod::lemma_fundamental_div_mod_converse(
                n,
                t,
                rounds,
                waiting + 1,
            );
        } else {
            law_retire_at_threshold(before, node, node);
            if after.retired.len() > 0 {
                let left = after.retired[0];
                law_retire_at_threshold(before, node, left);
                assert(after.retired.contains(left));
            }
            assert(n == (rounds + 1) * t + 0) by (nonlinear_arith)
                requires
                    n - 1 == t * rounds + waiting,
                    waiting + 1 == t,
            ;
            vstd::arithmetic::div_mod::lemma_fundamental_div_mod_converse(n, t, rounds + 1, 0);
        }
    }
}

/// A pass over a list whose objects are all protected leaves it as it is.
pub proof fn law_sweep_of_protected<D>(nodes: Seq<RetiredNode<D>>, protected: Set<usize>)
    requires
        forall|k: int| 0 <= k < nodes.len() ==> protected.contains((#[trigger] nodes[k]).ptr),
    ensures
        Sweep::over(nodes, protected).kept == nodes,
        Sweep::over(nodes, protected).deleted.len() == 0,
{
    crate::laws::all_protected_stay(nodes, 0, protected);
}

proof fn protected_start_is_passed<D>(
    nodes: Seq<RetiredNode<D>>,
    i: int,
    j: int,
    protected: Set<usize>,
)
    requires
        0 <= i <= j <= nodes.len(),
        forall|k: int| i <= k < j ==> protected.contains((#[trigger] nodes[k]).ptr),
    ensures
        Sweep::from(nodes, i, protected) == Sweep::from(nodes, j, protected),
    decreases j - i,
{
    if i < j {
        protected_start_is_passed(nodes, i + 1, j, protected);
    }
}

/// A pass over a list first deletes the first object that is not protected, and
/// goes on as it would if the last object had stood there.
pub proof fn law_sweep_deletes_first_unprotected<D>(
    nodes: Seq<RetiredNode<D>>,
    i: int,
    protected: Set<usize>,
)
    requires
        0 <= i < nodes.len(),
        !protected.contains(nodes[i].ptr),
        forall|k: int| 0 <= k < i ==> protected.contains((#[trigger] nodes[k]).ptr),
    ensures
        ({
            let rest = Seq::new(
                (nodes.len() - 1) as nat,
                |k: int| if k == i { nodes[nodes.len() - 1] } else { nodes[k] },
            );
            &&& Sweep::over(nodes, protected).kept == Sweep::over(rest, protected).kept
            &&& Sweep::over(nodes, protected).deleted == seq![nodes[i]] + Sweep::over(
                rest,
                protected,
            ).deleted
        }),
{
    let rest = Seq::new(
        (nodes.len() - 1) as nat,
        |k: int| if k == i { nodes[nodes.len() - 1] } else { nodes[k] },
    );
    assert(rest =~= crate::memory::swap_removed(nodes, i));
    protected_start_is_passed(nodes, 0, i, protected);
    protected_start_is_passed(rest, 0, i, protected);
}

/// A task without a threshold reclaims at every tick; one with a threshold
/// reclaims exactly when at least that many objects wait.
pub proof fn law_task_is_due_from_threshold(threshold: usize, retired: nat)
    ensures
        ReclaimTask::EveryTick.is_due(retired),
        (ReclaimTask::AtThreshold { threshold }).is_due(retired) <==> retired >= threshold,
{
}

/// A task that is due at some number of objects is due at every greater one.
pub proof fn law_due_is_monotone(task: ReclaimTask, fewer: nat, more: nat)
    requires
        task.is_due(fewer),
        fewer <= more,
    ensures
        task.is_due(more),
{
}

/// The domain that the threads share is the one that there is; if there is none,
/// it is a new one that reclaims at 64 objects.
pub proof fn law_global_domain_is_made_once<D>(globals: GlobalsState<D>)
    ensures
        globals.domain matches Some(domain) ==> globals.domain_or_new() == domain,
        globals.domain is None ==> {
            let domain = globals.domain_or_new();
            &&& domain.memory.slots.len() == 0
            &&& domain.memory.head is None
            &&& domain.retired.len() == 0
            &&& domain.deleted.len() == 0
            &&& domain.threshold == 64
        },
{
}

/// A thread that has a hazard pointer keeps it, and nothing changes. One that has
/// none gets the slot that the shared domain gives next, and the other threads
/// keep theirs.
pub proof fn law_thread_gets_one_slot<D>(globals: GlobalsState<D>, thread: u64, other: u64)
    ensures
        ({
            let after = globals.with_thread(thread);
            let domain = match globals.domain {
                Some(domain) => domain,
                None => DomainState::<D>::empty(64),
            };
            &&& after.slots.contains_key(thread)
            &&& globals.slots.contains_key(thread) ==> after == globals
            &&& !globals.slots.contains_key(thread) ==> {
                &&& after.domain == Some(domain.acquired())
                &&& after.slots[thread] == domain.memory.slot_to_acquire() as usize
            }
            &&& other != thread ==> {
                &&& after.slots.contains_key(other) == globals.slots.contains_key(other)
                &&& globals.slots.contains_key(other) ==> after.slots[other] == globals.slots[other]
            }
        }),
{
}

/// After a thread protects an address, for the first time or again, its own slot
/// of the shared domain holds the address, which is therefore protected. The
/// slots of the others, the objects and the threshold stay as they are.
pub proof fn law_thread_slot_holds_address<D>(
    globals: GlobalsState<D>,
    thread: u64,
    address: usize,
)
    requires
        globals.domain matches Some(domain) ==> domain.memory.slots.len() <= usize::MAX,
        globals.slots.contains_key(thread) ==> (globals.domain matches Some(domain)
            && globals.slots[thread] < domain.memory.slots.len()
            && domain.memory.slots[globals.slots[thread] as int].active == SLOT_ACQUIRED),
    ensures
        ({
            let after = globals.published(thread, address);
            let before = match globals.domain {
                Some(domain) => domain,
                None => DomainState::<D>::empty(64),
            };
            let slot = after.slots[thread];
            &&& after.slots.contains_key(thread)
            &&& globals.slots.contains_key(thread) ==> slot == globals.slots[thread]
            &&& forall|t: u64|
                t != thread ==> (#[trigger] after.slots.contains_key(t)
                    == globals.slots.contains_key(t))
            &&& forall|t: u64|
                t != thread && globals.slots.contains_key(t) ==> #[trigger] after.slots[t]
                    == globals.slots[t]
            &&& after.domain matches Some(domain) && {
                &&& slot < domain.memory.slots.len()
                &&& domain.memory.slots[slot as int].protected == address
                &&& domain.memory.slots[slot as int].active == SLOT_ACQUIRED
                &&& address != 0 ==> domain.protected().contains(address)
                &&& forall|i: int|
                    0 <= i < before.memory.slots.len() && i != slot ==> (
                    #[trigger] domain.memory.slots[i]) == before.memory.slots[i]
                &&& domain.retired == before.retired
                &&& domain.deleted == before.deleted
                &&& domain.threshold == before.threshold
            }
        }),
{
    let ready = globals.with_thread(thread);
    let before = globals.domain_or_new();
    let after = globals.published(thread, address);
    if before.memory.has_free() {
        before.memory.first_free_exists();
    }
    let slot = ready.slots[thread];
    law_publish_changes_one_slot(ready.domain->0, slot, address);
    assert(after.domain->0.memory.slots[slot as int].protected == address);
}

/// A thread that gives its hazard pointer back frees its own slot; the other
/// threads keep theirs. A thread without one changes nothing.
pub proof fn law_thread_gives_back_its_slot<D>(globals: GlobalsState<D>, thread: u64, other: u64)
    requires
        globals.slots.contains_key(thread) ==> (globals.domain matches Some(domain)
            && globals.slots[thread] < domain.memory.slots.len()),
    ensures
        ({
            let after = globals.without_thread(thread);
            &&& !after.slots.contains_key(thread)
            &&& !globals.slots.contains_key(thread) ==> after == globals
            &&& other != thread ==> {
                &&& after.slots.contains_key(other) == globals.slots.contains_key(other)
                &&& globals.slots.contains_key(other) ==> after.slots[other] == globals.slots[other]
            }
            &&& globals.slots.contains_key(thread) ==> (after.domain matches Some(domain) && {
                let before = globals.domain->0;
                let slot = globals.slots[thread] as int;
                &&& domain.memory.slots.len() == before.memory.slots.len()
                &&& domain.memory.slots[slot].protected == 0
                &&& domain.memory.slots[slot].active == SLOT_FREE
                &&& domain.memory.slots[slot].next == before.memory.slots[slot].next
                &&& forall|i: int|
                    0 <= i < before.memory.slots.len() && i != slot ==> (
                    #[trigger] domain.memory.slots[i]) == before.memory.slots[i]
                &&& domain.memory.head == before.memory.head
                &&& domain.retired == before.retired
                &&& domain.deleted == before.deleted
                &&& domain.threshold == before.threshold
            })
        }),
{
}

/// A thread whose exchange of the head fails keeps the slot that it has allocated
/// and loads the head anew; one whose exchange succeeds has that slot.
pub proof fn law_failed_exchange_keeps_slot(slot: usize, head: Option<usize>)
    ensures
        (Acquire::SwapHead { slot, head }).after(AcquireEvent::Swapped { linked: false }) == (
        Acquire::ReloadHead { slot }),
        (Acquire::SwapHead { slot, head }).after(AcquireEvent::Swapped { linked: true }) == (
        Acquire::Done { slot }),
{
}

/// A thread that finds a slot taken looks at the one that follows it in the list,
/// and only at the end of the list allocates a new one.
pub proof fn law_taken_slot_is_passed(slot: usize, link: Option<usize>)
    ensures
        ({
            let next = (Acquire::Claim { slot }).after(AcquireEvent::Claimed { taken: false });
            &&& next == (Acquire::LoadNext { slot })
            &&& next.after(AcquireEvent::Link { link }) is Allocate <==> link is None
            &&& link matches Some(following) ==> next.after(AcquireEvent::Link { link }) == (
            Acquire::Claim { slot: following })
        }),
{
}

/// A thread that finds the shared pointer changed from `ptr` to `now` starts over;
/// it has a guard on `now` as soon as it loads it, stores it and loads it again.
/// If it loads null it clears its slot and has no guard.
pub proof fn law_changed_pointer_is_tried_again(ptr: usize, now: usize)
    requires
        ptr != now,
        ptr != 0,
    ensures
        ({
            let again = (Protect::Validate { ptr }).after(ProtectEvent::Loaded { ptr: now });
            let loaded = again.after(ProtectEvent::Loaded { ptr: now });
            &&& again is Load
            &&& now != 0 ==> {
                &&& loaded == (Protect::Publish { ptr: now })
                &&& loaded.after(ProtectEvent::Stored).after(ProtectEvent::Loaded { ptr: now }) == (
                Protect::Done { guarded: Some(now) })
            }
            &&& now == 0 ==> {
                &&& loaded is Clear
                &&& loaded.after(ProtectEvent::Stored) == (Protect::Done { guarded: None })
            }
        }),
{
}

/// Protecting an address itself stores it once and is done: with a guard on the
/// address, or with none if it is null.
pub proof fn law_pinning_takes_one_store(ptr: usize)
    ensures
        Protect::at_ptr(ptr).awaits(ProtectEvent::Stored),
        Protect::at_ptr(ptr).after(ProtectEvent::Stored) == (Protect::Done {
            guarded: if ptr == 0 { None } else { Some(ptr) },
        }),
{
}

/// A walk is over exactly if the head is the one that it began with; otherwise it
/// starts again, and what it has gathered is dropped.
pub proof fn law_walk_ends_at_same_head(
    seen: Set<usize>,
    head: Option<usize>,
    now: Option<usize>,
    link: Option<usize>,
)
    ensures
        ({
            let walk = CollectState { phase: CollectPhase::Recheck { head }, seen };
            let next = walk.after(CollectEvent::Link { link: now });
            &&& next.phase is Done <==> now == head
            &&& next.phase is Done ==> next.seen == seen
            &&& now != head ==> {
                &&& next.phase is LoadHead
                &&& next.after(CollectEvent::Link { link }).seen == Set::<usize>::empty()
            }
        }),
{
}

/// A reclamation locks the list, gathers, sweeps with what was gathered, and only
/// then unlocks.
pub proof fn law_reclaim_sweeps_with_gathered_under_lock(events: Seq<ReclaimOutcome>)
    requires
        ReclaimState::Lock.awaits_all(events),
        ReclaimState::Lock.after_all(events) is Done,
    ensures
        events.len() == 4,
        events[0] is Locked,
        events[1] is Collected,
        events[2] is Swept,
        events[3] is Unlocked,
        ReclaimState::Lock.after_all(events.take(2)) == (ReclaimState::Sweep {
            seen: events[1]->seen,
        }),
{
    reveal_with_fuel(ReclaimState::after_all, 6);
    reveal_with_fuel(ReclaimState::awaits_all, 6);
    reclaim_goes_in_order(events);
    let two = events.take(2);
    assert(two.drop_last().drop_last() =~= Seq::<ReclaimOutcome>::empty());
    assert(two.last() == events[1] && two.drop_last().last() == events[0]);
    assert(events.drop_last().drop_last() =~= two);
}

proof fn reclaim_goes_in_order(events: Seq<ReclaimOutcome>)
    requires
        ReclaimState::Lock.awaits_all(events),
    ensures
        match ReclaimState::Lock.after_all(events) {
            ReclaimState::Lock => events.len() == 0,
            ReclaimState::Collect => events.len() == 1,
            ReclaimState::Sweep { .. } => events.len() == 2,
            ReclaimState::Unlock => events.len() == 3,
            ReclaimState::Done => events.len() == 4,
        },
    decreases events.len(),
{
    if events.len() > 0 {
        reclaim_goes_in_order(events.drop_last());
    }
}

/// Giving a slot back first stores null in it and then marks it free.
pub proof fn law_release_stores_in_order(slot: HazardSlot)
    ensures
        slot.after_release(Release::Withdraw) == (HazardSlot {
            protected: 0,
            next: slot.next,
            active: slot.active,
        }),
        slot.after_release(Release::Free) == (HazardSlot {
            protected: slot.protected,
            next: slot.next,
            active: SLOT_FREE,
        }),
        Release::Withdraw.after() is Free,
        Release::Free.after() is Done,
{
}

} // verus!
