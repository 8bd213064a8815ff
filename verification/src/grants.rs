//! Who owns which slot of a domain.

use crate::domain::DomainState;
use crate::history::Operation;
use vstd::prelude::*;

verus! {

/// The right to one slot of one domain, from the time that it was acquired.
pub struct Claim {
    /// The domain.
    pub domain: int,
    /// The slot.
    pub slot: usize,
    /// Which of the domain's acquisitions it was.
    pub stamp: nat,
}

/// The acquisitions of a domain.
#[verifier::ext_equal]
pub struct Grants {
    /// Which domain it is. A domain keeps its identity, and no contract says what
    /// it is: that two are the same is known only of one and the same domain.
    pub id: int,
    /// The last acquisition of each slot.
    pub stamps: Seq<nat>,
    /// How many acquisitions there have been.
    pub count: nat,
}

impl Grants {
    /// Every slot has its own acquisition.
    pub open spec fn wf(self) -> bool {
        &&& forall|i: int| 0 <= i < self.stamps.len() ==> (#[trigger] self.stamps[i]) < self.count
        &&& forall|i: int, j: int|
            0 <= i < j < self.stamps.len() ==> #[trigger] self.stamps[i] != #[trigger] self.stamps[j]
    }

    /// The acquisitions once `slot`, which may be a new one, is acquired.
    pub open spec fn with(self, slot: usize) -> Grants {
        Grants {
            stamps: if slot < self.stamps.len() {
                self.stamps.update(slot as int, self.count)
            } else {
                self.stamps.push(self.count)
            },
            count: self.count + 1,
            ..self
        }
    }

    /// The acquisitions once the domain has no slots.
    pub open spec fn without_slots(self) -> Grants {
        Grants { stamps: Seq::empty(), ..self }
    }

    /// `slot` was last acquired with `claim`.
    pub open spec fn names(self, claim: Claim) -> bool {
        &&& self.id == claim.domain
        &&& claim.slot < self.stamps.len()
        &&& self.stamps[claim.slot as int] == claim.stamp
    }

    /// `claim` is the right to a slot of `domain`, whose acquisitions these are:
    /// the slot is owned, and has not been acquired anew.
    pub open spec fn honours<D>(self, domain: DomainState<D>, claim: Claim) -> bool {
        self.names(claim) && domain.owns(claim.slot)
    }

    /// The acquisitions after `operation` on `domain`.
    pub open spec fn after<D>(self, domain: DomainState<D>, operation: Operation<D>) -> Grants {
        match operation {
            Operation::Acquire => self.with(domain.memory.slot_to_acquire() as usize),
            _ => self,
        }
    }

    /// The acquisitions after `operations` on `domain`, one after the other.
    pub open spec fn after_all<D>(
        self,
        domain: DomainState<D>,
        operations: Seq<Operation<D>>,
    ) -> Grants
        decreases operations.len(),
    {
        if operations.len() == 0 {
            self
        } else {
            self.after_all(domain, operations.drop_last()).after(
                domain.after_all(operations.drop_last()),
                operations.last(),
            )
        }
    }
}

/// Two claims to slots of one domain are to different slots, unless they come of
/// the same acquisition.
pub proof fn law_claims_are_apart<D>(
    domain: DomainState<D>,
    grants: Grants,
    first: Claim,
    second: Claim,
)
    requires
        grants.honours(domain, first),
        grants.honours(domain, second),
        first != second,
    ensures
        first.slot != second.slot,
{
}

/// To store in one's own slot, to clear it or to give it back leaves what
/// another owner protects as it is: giving up a guard never withdraws what
/// another owner published.
pub proof fn law_owners_leave_each_other<D>(
    domain: DomainState<D>,
    grants: Grants,
    own: Claim,
    other: Claim,
    address: usize,
)
    requires
        grants.honours(domain, own),
        grants.honours(domain, other),
        own != other,
    ensures
        domain.published(own.slot, address).memory.slots[other.slot as int]
            == domain.memory.slots[other.slot as int],
        domain.released(own.slot).memory.slots[other.slot as int]
            == domain.memory.slots[other.slot as int],
        grants.honours(domain.published(own.slot, address), other),
        grants.honours(domain.released(own.slot), other),
{
    law_claims_are_apart(domain, grants, own, other);
}

/// Giving a slot back ends the claim to it.
pub proof fn law_release_ends_claim<D>(domain: DomainState<D>, grants: Grants, claim: Claim)
    requires
        grants.honours(domain, claim),
    ensures
        !grants.honours(domain.released(claim.slot), claim),
{
}

proof fn operation_revives_no_claim<D>(
    domain: DomainState<D>,
    grants: Grants,
    claim: Claim,
    operation: Operation<D>,
)
    requires
        domain.memory.slots.len() <= usize::MAX,
        grants.stamps.len() == domain.memory.slots.len(),
        claim.stamp < grants.count,
        !grants.honours(domain, claim),
        domain.allows(operation),
    ensures
        !grants.after(domain, operation).honours(domain.after(operation), claim),
        claim.stamp < grants.after(domain, operation).count,
        domain.after(operation).memory.slots.len() <= usize::MAX,
        grants.after(domain, operation).stamps.len() == domain.after(operation).memory.slots.len(),
{
    if domain.memory.has_free() {
        domain.memory.first_free_exists();
    }
}

/// A claim that has ended is never honoured again, whatever is done with the
/// domain and whoever acquires the slot.
pub proof fn law_ended_claim_stays_ended<D>(
    domain: DomainState<D>,
    grants: Grants,
    claim: Claim,
    operations: Seq<Operation<D>>,
)
    requires
        domain.memory.slots.len() <= usize::MAX,
        grants.stamps.len() == domain.memory.slots.len(),
        claim.stamp < grants.count,
        !grants.honours(domain, claim),
        domain.allows_all(operations),
    ensures
        !grants.after_all(domain, operations).honours(domain.after_all(operations), claim),
        claim.stamp < grants.after_all(domain, operations).count,
        domain.after_all(operations).memory.slots.len() <= usize::MAX,
        grants.after_all(domain, operations).stamps.len() == domain.after_all(
            operations,
        ).memory.slots.len(),
    decreases operations.len(),
{
    if operations.len() > 0 {
        let before = operations.drop_last();
        law_ended_claim_stays_ended(domain, grants, claim, before);
        operation_revives_no_claim(
            domain.after_all(before),
            grants.after_all(domain, before),
            claim,
            operations.last(),
        );
    }
}

/// Ending a domain ends every claim to its slots.
pub proof fn law_teardown_ends_claims<D>(domain: DomainState<D>, grants: Grants, claim: Claim)
    ensures
        !grants.without_slots().honours(domain.torn_down(), claim),
{
}

} // verus!
