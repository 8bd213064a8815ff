use crate::hazard::{HazardSlot, SLOT_ACQUIRED};
use vstd::prelude::*;

verus! {

/// The memory that the threads using a domain share: the arena of slots and
/// the head of the list that links them.
#[verifier::ext_equal]
pub struct Memory {
    pub slots: Seq<HazardSlot>,
    pub head: Option<usize>,
}

impl Memory {
    pub open spec fn has(self, slot: usize) -> bool {
        slot < self.slots.len()
    }

    /// The memory after a store to one slot.
    pub open spec fn with_slot(self, slot: usize, value: HazardSlot) -> Memory {
        Memory { slots: self.slots.update(slot as int, value), head: self.head }
    }

    /// The memory after `address` is stored in the slot's `protected`.
    pub open spec fn with_protected(self, slot: usize, address: usize) -> Memory {
        self.with_slot(slot, HazardSlot { protected: address, ..self.slots[slot as int] })
    }

    /// The memory after `active` is stored in the slot.
    pub open spec fn with_active(self, slot: usize, active: usize) -> Memory {
        self.with_slot(slot, HazardSlot { active, ..self.slots[slot as int] })
    }

    /// The memory after `next` is stored in the slot.
    pub open spec fn with_next(self, slot: usize, next: Option<usize>) -> Memory {
        self.with_slot(slot, HazardSlot { next, ..self.slots[slot as int] })
    }

    /// Every slot is in the list, the newest first.
    pub open spec fn linked_in_order(self) -> bool {
        &&& self.head == link_below(self.slots.len() as int)
        &&& forall|i: int| 0 <= i < self.slots.len() ==> (#[trigger] self.slots[i]).next == link_below(i)
    }

    /// Slot `i` is free, and no slot nearer to the head of the list is.
    pub open spec fn first_free(self, i: int) -> bool {
        &&& 0 <= i < self.slots.len()
        &&& self.slots[i].is_free()
        &&& forall|j: int| i < j < self.slots.len() ==> !(#[trigger] self.slots[j]).is_free()
    }

    pub open spec fn has_free(self) -> bool {
        exists|i: int| 0 <= i < self.slots.len() && (#[trigger] self.slots[i]).is_free()
    }

    /// The slot that an undisturbed thread takes.
    pub open spec fn slot_to_acquire(self) -> int {
        if self.has_free() {
            choose|i: int| self.first_free(i)
        } else {
            self.slots.len() as int
        }
    }

    /// Among free slots there is one that is nearest to the head.
    pub proof fn first_free_exists(self)
        requires
            self.has_free(),
        ensures
            self.first_free(self.slot_to_acquire()),
    {
        let i = choose|i: int| 0 <= i < self.slots.len() && (#[trigger] self.slots[i]).is_free();
        self.first_free_from(i);
    }

    proof fn first_free_from(self, i: int)
        requires
            0 <= i < self.slots.len(),
            self.slots[i].is_free(),
        ensures
            exists|j: int| self.first_free(j),
        decreases self.slots.len() - i,
    {
        if !self.first_free(i) {
            let j = choose|j: int| i < j < self.slots.len() && (#[trigger] self.slots[j]).is_free();
            self.first_free_from(j);
        }
    }

    /// The memory after an undisturbed thread has taken a slot.
    pub open spec fn acquired(self) -> Memory {
        if self.has_free() {
            self.with_active(self.slot_to_acquire() as usize, SLOT_ACQUIRED)
        } else {
            Memory {
                slots: self.slots.push(
                    HazardSlot { protected: 0, next: self.head, active: SLOT_ACQUIRED },
                ),
                head: Some(self.slots.len() as usize),
            }
        }
    }

    /// The addresses that some slot from position `k` of the arena on protects.
    pub open spec fn protected_from(self, k: int) -> Set<usize> {
        Set::new(
            |address: usize|
                address != 0 && exists|i: int|
                    k <= i < self.slots.len() && (#[trigger] self.slots[i]).protected == address,
        )
    }

    /// The addresses that some slot protects.
    pub open spec fn protected_addresses(self) -> Set<usize> {
        self.protected_from(0)
    }
}

/// The link to the slot just before position `i` of the arena.
pub open spec fn link_below(i: int) -> Option<usize> {
    if i <= 0 {
        None
    } else {
        Some((i - 1) as usize)
    }
}

/// `items` without its item at `i`, whose place the last one takes.
pub open spec fn swap_removed<T>(items: Seq<T>, i: int) -> Seq<T> {
    items.update(i, items.last()).drop_last()
}

} // verus!
