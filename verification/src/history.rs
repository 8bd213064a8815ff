//! What holds of a domain from its beginning to its end.

use crate::domain::DomainState;
use crate::retired::RetiredNode;
use vstd::prelude::*;

verus! {

broadcast use {
    vstd::multiset::group_multiset_axioms,
    vstd::seq_lib::to_multiset_contains,
    vstd::seq_lib::to_multiset_len,
};

/// A call on a domain.
pub enum Operation<D> {
    /// A slot is taken.
    Acquire,
    /// `slot` is given back.
    Release { slot: usize },
    /// `address` is stored in `slot`; 0 withdraws the protection.
    Publish { slot: usize, address: usize },
    /// An object is retired.
    Retire { node: RetiredNode<D> },
    /// The domain reclaims.
    Reclaim,
}

impl<D> Operation<D> {
    /// The objects that `operations` retire, in order.
    pub open spec fn retired_by(operations: Seq<Operation<D>>) -> Seq<RetiredNode<D>>
        decreases operations.len(),
    {
        if operations.len() == 0 {
            Seq::empty()
        } else {
            let before = Self::retired_by(operations.drop_last());
            match operations.last() {
                Operation::Retire { node } => before.push(node),
                _ => before,
            }
        }
    }
}

impl<D> DomainState<D> {
    /// The operation can be made: the slot that it names exists, and a slot that it
    /// adds can be named.
    pub open spec fn allows(self, operation: Operation<D>) -> bool {
        match operation {
            Operation::Acquire => self.memory.has_free() || self.memory.slots.len() < usize::MAX,
            Operation::Release { slot } => self.memory.has(slot),
            Operation::Publish { slot, .. } => self.memory.has(slot),
            Operation::Retire { .. } => true,
            Operation::Reclaim => true,
        }
    }

    /// The operations can be made, one after the other.
    pub open spec fn allows_all(self, operations: Seq<Operation<D>>) -> bool
        decreases operations.len(),
    {
        operations.len() > 0 ==> {
            &&& self.allows_all(operations.drop_last())
            &&& self.after_all(operations.drop_last()).allows(operations.last())
        }
    }

    /// The domain after one operation.
    pub open spec fn after(self, operation: Operation<D>) -> DomainState<D> {
        match operation {
            Operation::Acquire => self.acquired(),
            Operation::Release { slot } => self.released(slot),
            Operation::Publish { slot, address } => self.published(slot, address),
            Operation::Retire { node } => self.retired_with(node),
            Operation::Reclaim => self.reclaimed(),
        }
    }

    /// The domain after `operations`, one after the other.
    pub open spec fn after_all(self, operations: Seq<Operation<D>>) -> DomainState<D>
        decreases operations.len(),
    {
        if operations.len() == 0 {
            self
        } else {
            self.after_all(operations.drop_last()).after(operations.last())
        }
    }
}

/// Whatever has been done with a domain, each object that was retired in it has
/// either been deleted or waits, as often as it was retired. So the number of
/// objects that wait is the number retired less the number deleted.
pub proof fn law_retired_or_deleted<D>(threshold: usize, operations: Seq<Operation<D>>)
    ensures
        ({
            let now = DomainState::<D>::empty(threshold).after_all(operations);
            let retired = Operation::retired_by(operations);
            &&& now.retired.to_multiset().add(now.deleted.to_multiset()) == retired.to_multiset()
            &&& now.retired.len() == retired.len() - now.deleted.len()
        }),
    decreases operations.len(),
{
    let now = DomainState::<D>::empty(threshold).after_all(operations);
    let retired = Operation::retired_by(operations);
    if operations.len() > 0 {
        let before = DomainState::<D>::empty(threshold).after_all(operations.drop_last());
        let retired_before = Operation::retired_by(operations.drop_last());
        law_retired_or_deleted(threshold, operations.drop_last());
        match operations.last() {
            Operation::Retire { node } => {
                crate::laws::law_retire_adds_one(before, node);
                vstd::seq_lib::to_multiset_build(retired_before, node);
            },
            Operation::Reclaim => crate::laws::law_reclaim_conserves(before),
            _ => {},
        }
    }
    assert(now.retired.to_multiset().add(now.deleted.to_multiset()) =~= retired.to_multiset());
    assert(now.retired.to_multiset().add(now.deleted.to_multiset()).len() == retired.len());
}

/// Whatever has been done with a domain, once it has ended each object that was
/// retired in it has been deleted exactly as often as it was retired, and no
/// other object has been.
pub proof fn law_everything_is_deleted_once<D>(threshold: usize, operations: Seq<Operation<D>>)
    ensures
        ({
            let end = DomainState::<D>::empty(threshold).after_all(operations).torn_down();
            let retired = Operation::retired_by(operations);
            &&& end.retired.len() == 0
            &&& end.deleted.to_multiset() == retired.to_multiset()
            &&& end.deleted.len() == retired.len()
        }),
{
    let last = DomainState::<D>::empty(threshold).after_all(operations);
    let end = last.torn_down();
    law_retired_or_deleted(threshold, operations);
    vstd::seq_lib::lemma_multiset_commutative(last.deleted, last.retired);
    assert(end.deleted.to_multiset() =~= Operation::retired_by(operations).to_multiset());
}

/// What has been deleted stays so: operations only add to it.
pub proof fn law_deleted_only_grows<D>(domain: DomainState<D>, operations: Seq<Operation<D>>)
    ensures
        domain.deleted.is_prefix_of(domain.after_all(operations).deleted),
    decreases operations.len(),
{
    if operations.len() > 0 {
        law_deleted_only_grows(domain, operations.drop_last());
    }
}

} // verus!
