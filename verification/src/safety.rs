//! Why no guarded object is ever deleted.

use crate::acquire::Acquire;
use crate::collect::CollectPhase;
use crate::protocol::{Reader, Run, System, Transition, Writer};
use vstd::prelude::*;

verus! {

proof fn begin_acquire_keeps_inv(s: System, reader: int)
    requires
        s.inv(),
        s.enabled(Transition::BeginAcquire { reader }),
    ensures
        s.after(Transition::BeginAcquire { reader }).inv(),
{
}

proof fn spurious_failure_keeps_inv(s: System, reader: int)
    requires
        s.inv(),
        s.enabled(Transition::SpuriousFailure { reader }),
    ensures
        s.after(Transition::SpuriousFailure { reader }).inv(),
{
}

/// A slot that joins the list leaves the places of the others as they are.
pub(crate) proof fn chain_grows(chain: Seq<usize>, slot: usize)
    requires
        chain.no_duplicates(),
        !chain.contains(slot),
    ensures
        chain.push(slot).no_duplicates(),
        chain.push(slot).contains(slot),
        forall|x: usize|
            x != slot ==> #[trigger] chain.push(slot).contains(x) == chain.contains(x),
        forall|x: usize|
            chain.contains(x) ==> #[trigger] chain.push(slot).index_of(x) == chain.index_of(x),
{
    let longer = chain.push(slot);
    assert(longer[chain.len() as int] == slot);
    assert forall|x: usize| x != slot implies #[trigger] longer.contains(x) == chain.contains(x) by {
        if chain.contains(x) {
            let i = chain.index_of(x);
            assert(longer[i] == x);
        }
        if longer.contains(x) {
            let i = longer.index_of(x);
            assert(chain[i] == x);
        }
    }
    assert forall|x: usize| chain.contains(x) implies #[trigger] longer.index_of(x) == chain.index_of(
        x,
    ) by {
        let i = chain.index_of(x);
        assert(longer[i] == x);
        let j = longer.index_of(x);
        assert(longer[j] == x);
    }
}

proof fn swap_head_keeps_inv(s: System, reader: int, slot: usize)
    requires
        s.inv(),
        s.enabled(Transition::AcquireAccess { reader }),
        s.readers[reader] matches Reader::Acquiring { acquire: Acquire::SwapHead { slot: own, .. } }
            && own == slot,
    ensures
        s.after(Transition::AcquireAccess { reader }).inv(),
{
    let t = s.after(Transition::AcquireAccess { reader });
    assert(s.reader_inv(s.readers[reader]));
    chain_grows(s.chain, slot);
    assert(t.list_inv());
    assert(t.owner_inv());
    assert forall|r: int| t.is_reader(r) implies t.reader_inv(#[trigger] t.readers[r]) by {
        assert(s.reader_inv(s.readers[r]));
    }
    assert forall|w: int| t.is_writer(w) implies t.writer_inv(#[trigger] t.writers[w]) by {
        assert(s.writer_inv(s.writers[w]));
    }
}

proof fn acquire_access_keeps_inv(s: System, reader: int)
    requires
        s.inv(),
        s.enabled(Transition::AcquireAccess { reader }),
    ensures
        s.after(Transition::AcquireAccess { reader }).inv(),
{
    let state = s.readers[reader]->acquire;
    assert(s.reader_inv(s.readers[reader]));
    if let Acquire::SwapHead { slot, .. } = state {
        swap_head_keeps_inv(s, reader, slot);
    }
}

proof fn begin_protect_keeps_inv(s: System, reader: int, source: int)
    requires
        s.inv(),
        s.enabled(Transition::BeginProtect { reader, source }),
    ensures
        s.after(Transition::BeginProtect { reader, source }).inv(),
{
}

proof fn protect_access_keeps_inv(s: System, reader: int)
    requires
        s.inv(),
        s.enabled(Transition::ProtectAccess { reader }),
    ensures
        s.after(Transition::ProtectAccess { reader }).inv(),
{
}

proof fn begin_protect_ptr_keeps_inv(s: System, reader: int, ptr: usize)
    requires
        s.inv(),
        s.enabled(Transition::BeginProtectPtr { reader, ptr }),
    ensures
        s.after(Transition::BeginProtectPtr { reader, ptr }).inv(),
{
}

proof fn clear_keeps_inv(s: System, reader: int)
    requires
        s.inv(),
        s.enabled(Transition::Clear { reader }),
    ensures
        s.after(Transition::Clear { reader }).inv(),
{
}

proof fn begin_release_keeps_inv(s: System, reader: int)
    requires
        s.inv(),
        s.enabled(Transition::BeginRelease { reader }),
    ensures
        s.after(Transition::BeginRelease { reader }).inv(),
{
}

proof fn release_access_keeps_inv(s: System, reader: int)
    requires
        s.inv(),
        s.enabled(Transition::ReleaseAccess { reader }),
    ensures
        s.after(Transition::ReleaseAccess { reader }).inv(),
{
}

proof fn install_keeps_inv(s: System, writer: int, source: int, ptr: usize)
    requires
        s.inv(),
        s.enabled(Transition::Install { writer, source, ptr }),
    ensures
        s.after(Transition::Install { writer, source, ptr }).inv(),
{
}

proof fn put_back_keeps_inv(s: System, writer: int, source: int)
    requires
        s.inv(),
        s.enabled(Transition::PutBack { writer, source }),
    ensures
        s.after(Transition::PutBack { writer, source }).inv(),
{
}

proof fn share_keeps_inv(s: System, writer: int, source: int, from: int)
    requires
        s.inv(),
        s.enabled(Transition::Share { writer, source, from }),
    ensures
        s.after(Transition::Share { writer, source, from }).inv(),
{
}

proof fn let_go_keeps_inv(s: System, writer: int)
    requires
        s.inv(),
        s.enabled(Transition::LetGo { writer }),
    ensures
        s.after(Transition::LetGo { writer }).inv(),
{
}

proof fn retire_keeps_inv(s: System, writer: int)
    requires
        s.inv(),
        s.enabled(Transition::Retire { writer }),
    ensures
        s.after(Transition::Retire { writer }).inv(),
{
}

proof fn begin_reclaim_keeps_inv(s: System, writer: int)
    requires
        s.inv(),
        s.enabled(Transition::BeginReclaim { writer }),
    ensures
        s.after(Transition::BeginReclaim { writer }).inv(),
{
}

proof fn lock_retired_keeps_inv(s: System, writer: int)
    requires
        s.inv(),
        s.enabled(Transition::LockRetired { writer }),
    ensures
        s.after(Transition::LockRetired { writer }).inv(),
{
}

/// A walk that has, or will find, what a slot protects still has or will find it
/// after its next load.
pub(crate) proof fn access_keeps_watch(s: System, writer: int, slot: usize, address: usize)
    requires
        s.inv(),
        s.enabled(Transition::CollectAccess { writer }),
        s.publishes(slot, address),
        address != 0,
        s.will_see(s.writers[writer], slot, address),
    ensures
        ({
            let t = s.after(Transition::CollectAccess { writer });
            t.will_see(t.writers[writer], slot, address)
        }),
{
    assert(s.writer_inv(s.writers[writer]));
    assert(s.chain[s.chain.index_of(slot)] == slot);
    match s.writers[writer]->walk.phase {
        CollectPhase::LoadHead => walk_enters_list(s, writer),
        CollectPhase::LoadNext { slot: here, .. } => walk_moves_on(s, writer, here),
        _ => {},
    }
}

/// A walk enters the list at the end of the chain.
proof fn walk_enters_list(s: System, writer: int)
    requires
        s.inv(),
        s.enabled(Transition::CollectAccess { writer }),
        s.writers[writer]->walk.phase is LoadHead,
    ensures
        s.memory.head matches Some(first) ==> s.chain.contains(first) && s.chain.index_of(first)
            == s.chain.len() - 1,
        s.memory.head is None ==> s.chain.len() == 0,
{
    let n = s.chain.len() as int;
    if n > 0 {
        assert(s.chain.contains(s.chain[n - 1]));
        assert(s.chain.index_of(s.chain[n - 1]) == n - 1);
    }
}

/// A walk moves on to the slot that is just before in the chain.
proof fn walk_moves_on(s: System, writer: int, here: usize)
    requires
        s.inv(),
        s.enabled(Transition::CollectAccess { writer }),
        s.writers[writer]->walk.phase matches CollectPhase::LoadNext { slot, .. } && slot == here,
    ensures
        s.chain.contains(here),
        s.memory.slots[here as int].next matches Some(next) ==> s.chain.contains(next)
            && s.chain.index_of(next) == s.chain.index_of(here) - 1,
        s.memory.slots[here as int].next is None ==> s.chain.index_of(here) == 0,
{
    assert(s.writer_inv(s.writers[writer]));
    let k = s.chain.index_of(here);
    assert(s.chain[k] == here);
    assert(s.memory.slots[here as int].next == s.chain_link(k));
    if k > 0 {
        assert(s.chain.contains(s.chain[k - 1]));
        assert(s.chain.index_of(s.chain[k - 1]) == k - 1);
    }
}

proof fn collect_access_keeps_inv(s: System, writer: int)
    requires
        s.inv(),
        s.enabled(Transition::CollectAccess { writer }),
    ensures
        s.after(Transition::CollectAccess { writer }).inv(),
{
    let t = s.after(Transition::CollectAccess { writer });
    assert(s.writer_inv(s.writers[writer]));
    assert(t.list_inv());
    assert(t.owner_inv());
    assert(t.object_inv());
    assert(t.lock_inv());
    assert forall|r: int| t.is_reader(r) implies t.reader_inv(#[trigger] t.readers[r]) by {
        assert(s.reader_inv(s.readers[r]));
    }
    assert forall|r: int| t.is_reader(r) implies ((#[trigger] t.readers[r]) matches Reader::Guarding {
        slot,
        ptr,
    } ==> t.retired.contains(ptr) ==> t.will_see(t.writers[writer], slot, ptr)) by {
        assert(s.reader_inv(s.readers[r]));
        if let Reader::Guarding { slot, ptr } = s.readers[r] {
            if s.retired.contains(ptr) {
                access_keeps_watch(s, writer, slot, ptr);
            }
        }
    }
    match s.writers[writer]->walk.phase {
        CollectPhase::LoadHead => walk_enters_list(s, writer),
        CollectPhase::LoadNext { slot, .. } => walk_moves_on(s, writer, slot),
        _ => {},
    }
    assert forall|w: int| t.is_writer(w) implies t.writer_inv(#[trigger] t.writers[w]) by {
        if w != writer {
            assert(s.writer_inv(s.writers[w]));
        }
    }
}

proof fn sweep_node_keeps_inv(s: System, writer: int)
    requires
        s.inv(),
        s.enabled(Transition::SweepNode { writer }),
    ensures
        s.after(Transition::SweepNode { writer }).inv(),
{
}

proof fn end_sweep_keeps_inv(s: System, writer: int)
    requires
        s.inv(),
        s.enabled(Transition::EndSweep { writer }),
    ensures
        s.after(Transition::EndSweep { writer }).inv(),
{
}

proof fn unlock_retired_keeps_inv(s: System, writer: int)
    requires
        s.inv(),
        s.enabled(Transition::UnlockRetired { writer }),
    ensures
        s.after(Transition::UnlockRetired { writer }).inv(),
{
}

/// Every transition keeps the invariant.
proof fn transition_keeps_inv(s: System, t: Transition)
    requires
        s.inv(),
        s.enabled(t),
    ensures
        s.after(t).inv(),
{
    match t {
        Transition::BeginAcquire { reader } => begin_acquire_keeps_inv(s, reader),
        Transition::AcquireAccess { reader } => acquire_access_keeps_inv(s, reader),
        Transition::SpuriousFailure { reader } => spurious_failure_keeps_inv(s, reader),
        Transition::BeginProtect { reader, source } => begin_protect_keeps_inv(s, reader, source),
        Transition::ProtectAccess { reader } => protect_access_keeps_inv(s, reader),
        Transition::BeginProtectPtr { reader, ptr } => begin_protect_ptr_keeps_inv(s, reader, ptr),
        Transition::Clear { reader } => clear_keeps_inv(s, reader),
        Transition::BeginRelease { reader } => begin_release_keeps_inv(s, reader),
        Transition::ReleaseAccess { reader } => release_access_keeps_inv(s, reader),
        Transition::Install { writer, source, ptr } => install_keeps_inv(s, writer, source, ptr),
        Transition::PutBack { writer, source } => put_back_keeps_inv(s, writer, source),
        Transition::Share { writer, source, from } => share_keeps_inv(s, writer, source, from),
        Transition::LetGo { writer } => let_go_keeps_inv(s, writer),
        Transition::Retire { writer } => retire_keeps_inv(s, writer),
        Transition::BeginReclaim { writer } => begin_reclaim_keeps_inv(s, writer),
        Transition::LockRetired { writer } => lock_retired_keeps_inv(s, writer),
        Transition::CollectAccess { writer } => collect_access_keeps_inv(s, writer),
        Transition::SweepNode { writer } => sweep_node_keeps_inv(s, writer),
        Transition::EndSweep { writer } => end_sweep_keeps_inv(s, writer),
        Transition::UnlockRetired { writer } => unlock_retired_keeps_inv(s, writer),
    }
}

/// The invariant holds in the states of every run.
pub proof fn run_keeps_inv(run: Run, i: int)
    requires
        run.valid(),
        0 <= i < run.states.len(),
    ensures
        run.states[i].inv(),
    decreases i,
{
    if i > 0 {
        run_keeps_inv(run, i - 1);
        transition_keeps_inv(run.states[i - 1], run.transitions[i - 1]);
    }
}

/// In every run, an object that is guarded is alive.
pub proof fn law_guarded_object_is_alive(run: Run, i: int, reader: int)
    requires
        run.valid(),
        0 <= i < run.states.len(),
        run.states[i].is_reader(reader),
    ensures
        run.states[i].readers[reader] matches Reader::Guarding { ptr, .. }
            ==> run.states[i].live.contains(ptr),
{
    run_keeps_inv(run, i);
    assert(run.states[i].reader_inv(run.states[i].readers[reader]));
}

/// In every run, a guard lasts until its reader's next access: whatever the
/// other threads do meanwhile, the object is not deleted and stays alive.
pub proof fn law_guard_lasts(run: Run, i: int, j: int, reader: int, slot: usize, ptr: usize)
    requires
        run.valid(),
        0 <= i <= j < run.states.len(),
        run.states[i].is_reader(reader),
        run.states[i].readers[reader] == (Reader::Guarding { slot, ptr }),
        forall|k: int| i <= k < j ==> !(#[trigger] run.transitions[k]).by_reader(reader),
    ensures
        run.states[j].is_reader(reader),
        run.states[j].readers[reader] == (Reader::Guarding { slot, ptr }),
        run.states[j].live.contains(ptr),
        forall|k: int|
            i <= k < j ==> run.states[k].deletes(#[trigger] run.transitions[k]) != Some(ptr),
    decreases j - i,
{
    if i < j {
        law_guard_lasts(run, i, j - 1, reader, slot, ptr);
        law_deletion_is_safe(run, j - 1);
        assert(!run.transitions[j - 1].by_reader(reader));
    }
    law_guarded_object_is_alive(run, j, reader);
}

/// In every run, what is deleted was retired, is alive until then, is in no
/// shared pointer and in no writer's hands, and is guarded by nobody.
pub proof fn law_deletion_is_safe(run: Run, i: int)
    requires
        run.valid(),
        0 <= i < run.transitions.len(),
    ensures
        run.states[i].deletes(run.transitions[i]) matches Some(ptr) ==> {
            let state = run.states[i];
            &&& state.retired.contains(ptr)
            &&& state.live.contains(ptr)
            &&& !state.sources.contains(ptr)
            &&& forall|w: int|
                state.is_writer(w) ==> (#[trigger] state.writers[w]) != (Writer::Holding { ptr })
            &&& forall|r: int|
                state.is_reader(r) ==> ((#[trigger] state.readers[r]) matches Reader::Guarding {
                    ptr: guarded,
                    ..
                } ==> guarded != ptr)
        },
{
    run_keeps_inv(run, i);
}

/// An object that is gone stays gone until a new one is put at its address.
proof fn dead_stays_dead(run: Run, i: int, j: int, ptr: usize)
    requires
        run.valid(),
        0 <= i <= j < run.states.len(),
        !run.states[i].live.contains(ptr),
        forall|k: int|
            i <= k < j ==> !((#[trigger] run.transitions[k]) matches Transition::Install {
                ptr: new,
                ..
            } && new == ptr),
    ensures
        !run.states[j].live.contains(ptr),
    decreases j - i,
{
    if i < j {
        dead_stays_dead(run, i, j - 1, ptr);
        assert(run.states[j] == run.states[j - 1].after(run.transitions[j - 1]));
    }
}

/// In every run, an object is deleted once: what is deleted leaves the retired
/// list and is no longer alive, and nothing is deleted at its address again
/// before a new object is put there.
pub proof fn law_deletion_happens_once(run: Run, i: int, j: int, ptr: usize)
    requires
        run.valid(),
        0 <= i < j < run.transitions.len(),
        run.states[i].deletes(run.transitions[i]) == Some(ptr),
        forall|k: int|
            i < k < j ==> !((#[trigger] run.transitions[k]) matches Transition::Install {
                ptr: new,
                ..
            } && new == ptr),
    ensures
        !run.states[i + 1].retired.contains(ptr),
        !run.states[i + 1].live.contains(ptr),
        run.states[j].deletes(run.transitions[j]) != Some(ptr),
{
    run_keeps_inv(run, i);
    run_keeps_inv(run, i + 1);
    assert(run.states[i + 1] == run.states[i].after(run.transitions[i]));
    dead_stays_dead(run, i + 1, j, ptr);
    law_deletion_is_safe(run, j);
}

/// In every run, no two hazard pointers own the same slot.
pub proof fn law_slots_are_exclusive(run: Run, i: int, first: int, second: int)
    requires
        run.valid(),
        0 <= i < run.states.len(),
        run.states[i].is_reader(first),
        run.states[i].is_reader(second),
        first != second,
        run.states[i].readers[first].owned_slot() is Some,
    ensures
        run.states[i].readers[first].owned_slot() != run.states[i].readers[second].owned_slot(),
{
    run_keeps_inv(run, i);
}

/// In every run, when a writer has swept the retired list the objects that are left
/// are those whose addresses it saw in the hazards.
pub proof fn law_reclamation_is_complete(run: Run, i: int, writer: int)
    requires
        run.valid(),
        0 <= i < run.transitions.len(),
        run.transitions[i] == (Transition::EndSweep { writer }),
    ensures
        run.states[i].writers[writer] matches Writer::Sweeping { seen, .. } && forall|k: int|
            0 <= k < run.states[i + 1].retired.len() ==> seen.contains(
                #[trigger] run.states[i + 1].retired[k],
            ),
{
    run_keeps_inv(run, i);
    assert(run.states[i].writer_inv(run.states[i].writers[writer]));
}

/// No transition loses an object.
proof fn transition_loses_nothing(s: System, t: Transition, ptr: usize)
    requires
        s.inv(),
        s.enabled(t),
        s.live.contains(ptr) ==> s.accounts_for(ptr),
        s.after(t).live.contains(ptr),
    ensures
        s.after(t).accounts_for(ptr),
{
    let after = s.after(t);
    if !s.live.contains(ptr) {
        // A new object: it is where the transition put it.
        assert(t is Install);
        assert(after.sources[t->Install_source] == ptr);
    } else if s.sources.contains(ptr) {
        let i = s.sources.index_of(ptr);
        if t is Install && t->Install_source == i && after.sources[i] != ptr {
            assert(ptr != 0);
            assert(after.writers[t->Install_writer] == (Writer::Holding { ptr }));
        } else if t is PutBack && t->PutBack_source == i && after.sources[i] != ptr {
            assert(after.writers[t->PutBack_writer] == (Writer::Holding { ptr }));
        } else if t is Share && t->Share_source == i && after.sources[i] != ptr {
            assert(after.writers[t->Share_writer] == (Writer::Holding { ptr }));
        } else {
            assert(after.sources[i] == ptr);
        }
    } else if s.retired.contains(ptr) {
        let k = s.retired.index_of(ptr);
        if t is SweepNode {
            let at = s.writers[t->SweepNode_writer]->at;
            if after.retired.len() < s.retired.len() {
                if k == s.retired.len() - 1 {
                    assert(after.retired[at] == ptr);
                } else {
                    assert(after.retired[k] == ptr);
                }
            }
        } else {
            assert(after.retired[k] == ptr);
        }
    } else {
        let w = choose|w: int|
            s.is_writer(w) && (#[trigger] s.writers[w]) == (Writer::Holding { ptr });
        if t is Retire && t->Retire_writer == w {
            assert(after.retired.last() == ptr);
        } else if t is PutBack && t->PutBack_writer == w {
            assert(after.sources[t->PutBack_source] == ptr);
        } else if t is LetGo && t->LetGo_writer == w {
            let v = choose|v: int|
                s.is_writer(v) && v != w && (#[trigger] s.writers[v]) == (Writer::Holding { ptr });
            assert(after.writers[v] == (Writer::Holding { ptr }));
        } else {
            assert(after.writers[w] == (Writer::Holding { ptr }));
        }
    }
}

/// In every run, no object is lost: one that is alive is in a shared pointer,
/// in a writer's hands or in the retired list.
pub proof fn law_nothing_leaks(run: Run, i: int, ptr: usize)
    requires
        run.valid(),
        0 <= i < run.states.len(),
        run.states[i].live.contains(ptr),
    ensures
        run.states[i].accounts_for(ptr),
    decreases i,
{
    if i > 0 {
        run_keeps_inv(run, i - 1);
        if run.states[i - 1].live.contains(ptr) {
            law_nothing_leaks(run, i - 1, ptr);
        }
        transition_loses_nothing(run.states[i - 1], run.transitions[i - 1], ptr);
    }
}

/// In every run, a slot that is free protects nothing: a thread that gives a
/// slot back is never seen to have freed it while it still protects.
pub proof fn law_free_slots_protect_nothing(run: Run, i: int, s: int)
    requires
        run.valid(),
        0 <= i < run.states.len(),
        0 <= s < run.states[i].memory.slots.len(),
        run.states[i].memory.slots[s].is_free(),
    ensures
        run.states[i].memory.slots[s].protected == 0,
{
    run_keeps_inv(run, i);
}

/// In every run, threads touch only slots that have been allocated.
pub proof fn law_touched_slots_exist(run: Run, i: int)
    requires
        run.valid(),
        0 <= i < run.states.len(),
    ensures
        ({
            let state = run.states[i];
            &&& forall|r: int|
                state.is_reader(r) ==> (state.reader_touches(#[trigger] state.readers[r]) matches Some(
                    slot,
                ) ==> state.memory.has(slot))
            &&& forall|w: int|
                state.is_writer(w) ==> (state.writer_touches(#[trigger] state.writers[w]) matches Some(
                    slot,
                ) ==> state.memory.has(slot))
        }),
{
    run_keeps_inv(run, i);
    let state = run.states[i];
    assert forall|r: int| state.is_reader(r) implies (state.reader_touches(
        #[trigger] state.readers[r],
    ) matches Some(slot) ==> state.memory.has(slot)) by {
        assert(state.reader_inv(state.readers[r]));
    }
    assert forall|w: int| state.is_writer(w) implies (state.writer_touches(
        #[trigger] state.writers[w],
    ) matches Some(slot) ==> state.memory.has(slot)) by {
        assert(state.writer_inv(state.writers[w]));
    }
}

pub(crate) proof fn transition_frees_no_slot(s: System, t: Transition)
    requires
        s.inv(),
        s.enabled(t),
    ensures
        s.memory.slots.len() <= s.after(t).memory.slots.len(),
        s.after(t).chain == s.chain || exists|slot: usize| s.after(t).chain == s.chain.push(slot),
{
    assert forall|r: int| s.is_reader(r) implies s.reader_inv(#[trigger] s.readers[r]) by {}
}

/// In every run, slots are only added: a linked slot keeps its place in the
/// list from then on.
pub proof fn law_linked_slots_stay(run: Run, i: int, j: int)
    requires
        run.valid(),
        0 <= i <= j < run.states.len(),
    ensures
        run.states[i].memory.slots.len() <= run.states[j].memory.slots.len(),
        run.states[i].chain.len() <= run.states[j].chain.len(),
        run.states[j].chain.take(run.states[i].chain.len() as int) == run.states[i].chain,
    decreases j - i,
{
    if i < j {
        law_linked_slots_stay(run, i, j - 1);
        run_keeps_inv(run, j - 1);
        transition_frees_no_slot(run.states[j - 1], run.transitions[j - 1]);
        assert(run.states[j].chain.take(run.states[j - 1].chain.len() as int)
            =~= run.states[j - 1].chain);
        assert(run.states[j].chain.take(run.states[i].chain.len() as int)
            =~= run.states[j - 1].chain.take(run.states[i].chain.len() as int));
    }
}

} // verus!
