use crate::reclaim::reclaim_due;
use std::collections::HashSet;
use vstd::prelude::*;

verus! {

broadcast use vstd::std_specs::hash::group_hash_axioms;

/// An object that has been unlinked and waits to be deleted: its address, and
/// the deleter that disposes of what lives there.
pub struct RetiredNode<D> {
    pub ptr: usize,
    pub deleter: D,
}

impl<D> RetiredNode<D> {
    /// The addresses of `nodes`.
    pub open spec fn addresses(nodes: Seq<RetiredNode<D>>) -> Seq<usize> {
        nodes.map_values(|node: RetiredNode<D>| node.ptr)
    }
}

impl<D: FnOnce(usize)> RetiredNode<D> {
    /// The deleter may be called on the address.
    pub open spec fn deletable(self) -> bool {
        call_requires(self.deleter, (self.ptr,))
    }

    /// The deleter has been called on the address.
    pub open spec fn deleted(self) -> bool {
        call_ensures(self.deleter, (self.ptr,), ())
    }

    pub fn new(ptr: usize, deleter: D) -> (node: Self)
        ensures
            node == (RetiredNode { ptr, deleter }),
    {
        RetiredNode { ptr, deleter }
    }

    pub fn address(&self) -> (address: usize)
        ensures
            address == self.ptr,
    {
        self.ptr
    }

    /// Calls the deleter on the address.
    pub fn delete(self)
        requires
            self.deletable(),
        ensures
            self.deleted(),
            call_ensures(self.deleter, (self.ptr,), ()),
    {
        (self.deleter)(self.ptr);
    }
}

/// The objects that wait to be deleted.
pub struct RetiredList<D> {
    nodes: Vec<RetiredNode<D>>,
    history: Ghost<Seq<RetiredNode<D>>>,
}

/// What one pass over a retired list leaves in it and what it deletes.
pub struct Sweep<D> {
    pub kept: Seq<RetiredNode<D>>,
    pub deleted: Seq<RetiredNode<D>>,
}

impl<D> Sweep<D> {
    /// The pass from position `i` on: a protected node stays where it is; any
    /// other is deleted, and the last node of the list takes its place.
    pub open spec fn from(nodes: Seq<RetiredNode<D>>, i: int, protected: Set<usize>) -> Sweep<D>
        decreases nodes.len() - i,
    {
        if i < 0 || i >= nodes.len() {
            Sweep { kept: nodes, deleted: Seq::empty() }
        } else if protected.contains(nodes[i].ptr) {
            Self::from(nodes, i + 1, protected)
        } else {
            let rest = Self::from(crate::memory::swap_removed(nodes, i), i, protected);
            Sweep { kept: rest.kept, deleted: seq![nodes[i]] + rest.deleted }
        }
    }

    /// The pass over the whole list.
    pub open spec fn over(nodes: Seq<RetiredNode<D>>, protected: Set<usize>) -> Sweep<D> {
        Self::from(nodes, 0, protected)
    }
}

impl<D> View for RetiredList<D> {
    type V = Seq<RetiredNode<D>>;

    closed spec fn view(&self) -> Seq<RetiredNode<D>> {
        self.nodes@
    }
}

impl<D> RetiredList<D> {
    /// Every node that has been deleted from this list, in order.
    pub closed spec fn history(&self) -> Seq<RetiredNode<D>> {
        self.history@
    }
}

impl<D: FnOnce(usize)> RetiredList<D> {
    /// The deleters of the waiting nodes may be called; those of the deleted ones
    /// have been.
    pub open spec fn wf(&self) -> bool {
        &&& forall|i: int| 0 <= i < self@.len() ==> (#[trigger] self@[i]).deletable()
        &&& forall|i: int| 0 <= i < self.history().len() ==> (#[trigger] self.history()[i]).deleted()
    }

    /// The deleter of every deleted object has been called on its address; that of
    /// every waiting object can be.
    pub proof fn law_deleters_are_called(&self)
        requires
            self.wf(),
        ensures
            forall|i: int|
                0 <= i < self.history().len() ==> call_ensures(
                    (#[trigger] self.history()[i]).deleter,
                    (self.history()[i].ptr,),
                    (),
                ),
            forall|i: int|
                0 <= i < self@.len() ==> call_requires(
                    (#[trigger] self@[i]).deleter,
                    (self@[i].ptr,),
                ),
    {
        assert forall|i: int| 0 <= i < self.history().len() implies call_ensures(
            (#[trigger] self.history()[i]).deleter,
            (self.history()[i].ptr,),
            (),
        ) by {
            assert(self.history()[i].deleted());
        }
        assert forall|i: int| 0 <= i < self@.len() implies call_requires(
            (#[trigger] self@[i]).deleter,
            (self@[i].ptr,),
        ) by {
            assert(self@[i].deletable());
        }
    }

    /// An empty list.
    pub fn new() -> (list: Self)
        ensures
            list.wf(),
            list@ == Seq::<RetiredNode<D>>::empty(),
            list.history() == Seq::<RetiredNode<D>>::empty(),
    {
        RetiredList { nodes: Vec::new(), history: Ghost(Seq::empty()) }
    }

    /// Adds the object at `ptr` at the end.
    pub fn push(&mut self, ptr: usize, deleter: D)
        requires
            old(self).wf(),
            call_requires(deleter, (ptr,)),
        ensures
            final(self).wf(),
            final(self)@ == old(self)@.push(RetiredNode { ptr, deleter }),
            final(self).history() == old(self).history(),
    {
        self.nodes.push(RetiredNode::new(ptr, deleter));
        assert(self.history() == old(self).history());
        assert forall|i: int| 0 <= i < self@.len() implies (#[trigger] self@[i]).deletable() by {
            if i < old(self)@.len() {
                assert(self@[i] == old(self)@[i]);
            }
        }
    }

    /// Adds the object at `ptr` at the end, and says whether that makes as many as
    /// `threshold`.
    pub fn retire(&mut self, ptr: usize, deleter: D, threshold: usize) -> (due: bool)
        requires
            old(self).wf(),
            call_requires(deleter, (ptr,)),
        ensures
            final(self).wf(),
            final(self)@ == old(self)@.push(RetiredNode { ptr, deleter }),
            final(self).history() == old(self).history(),
            due == (final(self)@.len() >= threshold),
    {
        self.push(ptr, deleter);
        reclaim_due(self.len(), threshold)
    }

    /// How many objects wait.
    pub fn len(&self) -> (len: usize)
        ensures
            len == self@.len(),
    {
        self.nodes.len()
    }

    /// Deletes every node whose address is not protected and keeps the others.
    pub fn reclaim(&mut self, protected: &HashSet<usize>)
        requires
            old(self).wf(),
        ensures
            final(self).wf(),
            final(self)@ == Sweep::over(old(self)@, protected@).kept,
            final(self).history() == old(self).history() + Sweep::over(old(self)@, protected@).deleted,
            final(self)@.to_multiset() == old(self)@.to_multiset().filter(
                |node: RetiredNode<D>| protected@.contains(node.ptr),
            ),
    {
        proof {
            crate::laws::law_sweep_keeps_protected(old(self)@, protected@);
        }
        let mut i: usize = 0;
        while i < self.nodes.len()
            invariant
                self.wf(),
                i <= self.nodes.len(),
                Sweep::over(old(self)@, protected@).kept == Sweep::from(self@, i as int, protected@).kept,
                old(self).history() + Sweep::over(old(self)@, protected@).deleted == self.history()
                    + Sweep::from(self@, i as int, protected@).deleted,
            decreases self.nodes.len() - i,
        {
            if !protected.contains(&self.nodes[i].address()) {
                let node = self.nodes.swap_remove(i);
                let ghost gone = node;
                node.delete();
                self.history = Ghost(self.history@.push(gone));
            } else {
                i += 1;
            }
        }
    }

    /// Deletes every node, in the order in which they stand.
    pub fn force_reclaim_all(&mut self)
        requires
            old(self).wf(),
        ensures
            final(self).wf(),
            final(self)@ == Seq::<RetiredNode<D>>::empty(),
            final(self).history() == old(self).history() + old(self)@,
    {
        let mut nodes: Vec<RetiredNode<D>> = Vec::new();
        std::mem::swap(&mut nodes, &mut self.nodes);
        assert(self.history() == old(self).history());
        for node in it: nodes
            invariant
                self.wf(),
                self@ == Seq::<RetiredNode<D>>::empty(),
                it.seq() == old(self)@,
                old(self).wf(),
                self.history() == old(self).history() + old(self)@.take(it.index()),
        {
            let ghost gone = node;
            assert(gone == old(self)@[it.index()]);
            node.delete();
            self.history = Ghost(self.history@.push(gone));
        }
    }
}

impl<D: FnOnce(usize)> Default for RetiredList<D> {
    fn default() -> (list: Self)
        ensures
            list.wf(),
            list@ == Seq::<RetiredNode<D>>::empty(),
            list.history() == Seq::<RetiredNode<D>>::empty(),
    {
        RetiredList::new()
    }
}

} // verus!
