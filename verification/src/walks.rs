//! What a reclamation among threads gathers and what it deletes.

use crate::collect::CollectPhase;
use crate::protocol::{Run, System, Transition, Writer};
use crate::retired::{RetiredNode, Sweep};
use vstd::prelude::*;

verus! {

/// Only a writer's own walk moves it on; the others' accesses leave it where it
/// is.
proof fn others_leave_walk(s: System, t: Transition, writer: int)
    requires
        s.inv(),
        s.enabled(t),
        s.is_writer(writer),
        s.writers[writer] is Collecting,
        t != (Transition::CollectAccess { writer }),
    ensures
        s.after(t).is_writer(writer),
        s.after(t).writers[writer] == s.writers[writer],
{
}

/// Whatever access is made, a walk that has, or will find, what a slot protects
/// still has or will find it.
proof fn transition_keeps_watch(
    s: System,
    t: Transition,
    writer: int,
    slot: usize,
    address: usize,
)
    requires
        s.inv(),
        s.enabled(t),
        s.after(t).inv(),
        s.is_writer(writer),
        s.writers[writer] is Collecting,
        s.publishes(slot, address),
        address != 0,
        s.will_see(s.writers[writer], slot, address),
    ensures
        s.after(t).is_writer(writer),
        s.after(t).will_see(s.after(t).writers[writer], slot, address),
{
    if t == (Transition::CollectAccess { writer }) {
        crate::safety::access_keeps_watch(s, writer, slot, address);
    } else {
        others_leave_walk(s, t, writer);
        crate::safety::transition_frees_no_slot(s, t);
        let after = s.after(t);
        assert(s.writer_inv(s.writers[writer]));
        if after.chain != s.chain {
            let new = choose|new: usize| after.chain == s.chain.push(new);
            if s.chain.contains(new) {
                let i = s.chain.index_of(new);
                assert(after.chain[i] == after.chain[s.chain.len() as int]);
            }
            crate::safety::chain_grows(s.chain, new);
        }
    }
}

proof fn walk_keeps_watch(run: Run, writer: int, from: int, k: int, slot: usize, address: usize)
    requires
        run.valid(),
        0 <= from <= k <= run.transitions.len(),
        run.states[from].is_writer(writer),
        run.states[from].writers[writer] matches Writer::Collecting { walk } && walk.phase is LoadHead,
        forall|i: int| from <= i < k ==> (#[trigger] run.states[i]).writers[writer] is Collecting,
        address != 0,
        forall|i: int| from <= i < k ==> (#[trigger] run.states[i]).publishes(slot, address),
    ensures
        run.states[k].is_writer(writer),
        run.states[k].will_see(run.states[k].writers[writer], slot, address),
    decreases k - from,
{
    if from < k {
        walk_keeps_watch(run, writer, from, k - 1, slot, address);
        crate::safety::run_keeps_inv(run, k - 1);
        crate::safety::run_keeps_inv(run, k);
        assert(run.states[k - 1].writers[writer] is Collecting);
        assert(run.states[k - 1].publishes(slot, address));
        assert(run.states[k] == run.states[k - 1].after(run.transitions[k - 1]));
        transition_keeps_watch(
            run.states[k - 1],
            run.transitions[k - 1],
            writer,
            slot,
            address,
        );
    }
}

/// In every run, a walk gathers every address that one linked slot protects
/// from its start to its end.
pub proof fn law_walk_gathers_protected(
    run: Run,
    writer: int,
    from: int,
    to: int,
    slot: usize,
    address: usize,
)
    requires
        run.valid(),
        run.walks(writer, from, to),
        address != 0,
        forall|k: int| from <= k <= to ==> (#[trigger] run.states[k]).publishes(slot, address),
    ensures
        run.gathered(writer, to).contains(address),
{
    walk_keeps_watch(run, writer, from, to + 1, slot, address);
}

proof fn walk_sees_only_published(run: Run, writer: int, from: int, k: int, address: usize)
    requires
        run.valid(),
        0 <= from < k <= run.transitions.len(),
        run.states[from].is_writer(writer),
        run.states[from].writers[writer] matches Writer::Collecting { walk } && walk.phase is LoadHead,
        forall|i: int| from <= i < k ==> (#[trigger] run.states[i]).writers[writer] is Collecting,
    ensures
        run.states[k].is_writer(writer),
        match run.states[k].writers[writer] {
            Writer::Collecting { walk } => walk.phase is LoadHead || (walk.seen.contains(address)
                ==> address != 0 && run.published_between(from, k - 1, address)),
            Writer::Sweeping { seen, .. } => seen.contains(address) ==> address != 0
                && run.published_between(from, k - 1, address),
            _ => true,
        },
    decreases k - from,
{
    let s = run.states[k - 1];
    let t = run.transitions[k - 1];
    if from < k - 1 {
        walk_sees_only_published(run, writer, from, k - 1, address);
        if run.published_between(from, k - 2, address) {
            let (i, slot) = choose|i: int, slot: usize|
                from <= i <= k - 2 && #[trigger] run.states[i].publishes(slot, address);
            assert(run.states[i].publishes(slot, address));
        }
    }
    crate::safety::run_keeps_inv(run, k - 1);
    assert(s.writers[writer] is Collecting);
    assert(s.writer_inv(s.writers[writer]));
    assert(run.states[k] == s.after(t));
    if t == (Transition::CollectAccess { writer }) {
        if let CollectPhase::LoadProtected { slot, .. } = s.writers[writer]->walk.phase {
            assert(s.publishes(slot, s.memory.slots[slot as int].protected));
        }
    } else {
        others_leave_walk(s, t, writer);
    }
}

/// In every run, a walk gathers only addresses that some linked slot protects at
/// a moment between its start and its end.
pub proof fn law_walk_gathers_only_protected(
    run: Run,
    writer: int,
    from: int,
    to: int,
    address: usize,
)
    requires
        run.valid(),
        run.walks(writer, from, to),
        run.gathered(writer, to).contains(address),
    ensures
        address != 0,
        run.published_between(from, to, address),
{
    walk_sees_only_published(run, writer, from, to + 1, address);
}

/// Only the writer that sweeps changes the retired list, and only it moves on
/// in it.
proof fn others_leave_sweep(s: System, t: Transition, writer: int)
    requires
        s.inv(),
        s.enabled(t),
        s.is_writer(writer),
        s.writers[writer] is Sweeping,
        t != (Transition::SweepNode { writer }),
        t != (Transition::EndSweep { writer }),
    ensures
        s.after(t).is_writer(writer),
        s.after(t).writers[writer] == s.writers[writer],
        s.after(t).retired == s.retired,
        s.deletes(t) is None,
{
}

proof fn sweep_goes_on<D>(
    run: Run,
    writer: int,
    from: int,
    to: int,
    nodes: Seq<RetiredNode<D>>,
)
    requires
        run.valid(),
        0 <= from <= to < run.transitions.len(),
        run.states[from].is_writer(writer),
        forall|k: int| from <= k <= to ==> (#[trigger] run.states[k]).writers[writer] is Sweeping,
        run.transitions[to] == (Transition::EndSweep { writer }),
        RetiredNode::addresses(nodes) == run.states[from].retired,
    ensures
        ({
            let start = run.states[from].writers[writer];
            let pass = Sweep::from(nodes, start->at, start->seen);
            &&& run.states[to].writers[writer]->seen == start->seen
            &&& run.states[to].retired == RetiredNode::addresses(pass.kept)
            &&& run.deleted_between(from, to) == RetiredNode::addresses(pass.deleted)
        }),
    decreases to - from,
{
    let s = run.states[from];
    let t = run.transitions[from];
    let at = s.writers[writer]->at;
    let seen = s.writers[writer]->seen;
    let pass = Sweep::from(nodes, at, seen);
    crate::safety::run_keeps_inv(run, from);
    assert(s.writers[writer] is Sweeping);
    assert(s.writer_inv(s.writers[writer]));
    assert(s.retired.len() == nodes.len());
    if from == to {
        assert(run.deleted_between(from, to) =~= RetiredNode::addresses(pass.deleted));
    } else {
        let next = run.states[from + 1];
        assert(next == s.after(t));
        assert(next.writers[writer] is Sweeping);
        if t == (Transition::SweepNode { writer }) {
            assert(s.retired[at] == nodes[at].ptr);
            if seen.contains(nodes[at].ptr) {
                sweep_goes_on(run, writer, from + 1, to, nodes);
            } else {
                let rest = crate::memory::swap_removed(nodes, at);
                assert(RetiredNode::addresses(rest) =~= next.retired);
                sweep_goes_on(run, writer, from + 1, to, rest);
                assert(s.deletes(t) == Some(nodes[at].ptr));
                assert(run.deleted_between(from, to) =~= RetiredNode::addresses(pass.deleted));
            }
        } else {
            others_leave_sweep(s, t, writer);
            sweep_goes_on(run, writer, from + 1, to, nodes);
        }
    }
}

/// In every run, a sweep among threads does what one pass over the list does: it
/// leaves the same objects in the same order, and deletes the others in the
/// same order.
pub proof fn law_sweep_is_one_pass<D>(
    run: Run,
    writer: int,
    from: int,
    to: int,
    nodes: Seq<RetiredNode<D>>,
)
    requires
        run.valid(),
        run.sweeps(writer, from, to),
        RetiredNode::addresses(nodes) == run.states[from].retired,
    ensures
        ({
            let pass = Sweep::over(nodes, run.states[from].writers[writer]->seen);
            &&& run.states[to + 1].retired == RetiredNode::addresses(pass.kept)
            &&& run.deleted_between(from, to + 1) == RetiredNode::addresses(pass.deleted)
        }),
{
    sweep_goes_on(run, writer, from, to, nodes);
    assert(run.states[to + 1] == run.states[to].after(run.transitions[to]));
    deleted_up_to_end(run, from, to);
}

/// A transition that deletes nothing adds nothing to what is deleted.
proof fn deleted_up_to_end(run: Run, from: int, to: int)
    requires
        from <= to,
        run.states[to].deletes(run.transitions[to]) is None,
    ensures
        run.deleted_between(from, to + 1) == run.deleted_between(from, to),
    decreases to - from,
{
    reveal_with_fuel(Run::deleted_between, 2);
    if from < to {
        deleted_up_to_end(run, from + 1, to);
    }
}

proof fn retired_leaves_by_deletion(run: Run, from: int, to: int, ptr: usize)
    requires
        run.valid(),
        0 <= from <= to < run.states.len(),
        run.states[from].retired.contains(ptr),
        !run.states[to].retired.contains(ptr),
    ensures
        exists|k: int|
            from <= k < to && run.states[k].deletes(#[trigger] run.transitions[k]) == Some(ptr),
    decreases to - from,
{
    let s = run.states[from];
    let t = run.transitions[from];
    let next = run.states[from + 1];
    assert(from < to);
    assert(next == s.after(t));
    crate::safety::run_keeps_inv(run, from);
    if next.retired.contains(ptr) {
        retired_leaves_by_deletion(run, from + 1, to, ptr);
    } else {
        let i = s.retired.index_of(ptr);
        if t is SweepNode {
            let at = s.writers[t->SweepNode_writer]->at;
            assert(s.writer_inv(s.writers[t->SweepNode_writer]));
            if i != at {
                if i == s.retired.len() - 1 {
                    assert(next.retired.len() == s.retired.len() || next.retired[at] == ptr);
                } else {
                    assert(next.retired[i] == ptr);
                }
            }
            assert(s.deletes(t) == Some(ptr));
        } else {
            assert(next.retired[i] == ptr);
        }
        assert(run.states[from].deletes(run.transitions[from]) == Some(ptr));
    }
}

proof fn lock_holds_list(run: Run, writer: int, from: int, k: int)
    requires
        run.valid(),
        0 <= from <= k <= run.transitions.len(),
        run.states[from].is_writer(writer),
        forall|i: int| from <= i < k ==> (#[trigger] run.states[i]).writers[writer] is Collecting,
    ensures
        run.states[k].is_writer(writer),
        run.states[k].retired == run.states[from].retired,
    decreases k - from,
{
    if from < k {
        lock_holds_list(run, writer, from, k - 1);
        crate::safety::run_keeps_inv(run, k - 1);
        assert(run.states[k - 1].writers[writer] is Collecting);
        assert(run.states[k] == run.states[k - 1].after(run.transitions[k - 1]));
    }
}

/// In every run, the retired list does not change while a writer gathers the
/// hazards: what is swept was retired before the walk began.
pub proof fn law_list_is_locked(run: Run, writer: int, from: int, to: int)
    requires
        run.valid(),
        run.walks(writer, from, to),
    ensures
        run.states[to + 1].retired == run.states[from].retired,
{
    lock_holds_list(run, writer, from, to + 1);
}

/// In every run, a retired object whose address one linked slot protects while a
/// writer gathers the hazards is left by the sweep that follows.
pub proof fn law_protected_is_kept(
    run: Run,
    writer: int,
    from: int,
    to: int,
    end: int,
    slot: usize,
    ptr: usize,
)
    requires
        run.valid(),
        run.walks(writer, from, to),
        run.sweeps(writer, to + 1, end),
        run.states[from].retired.contains(ptr),
        ptr != 0,
        forall|k: int| from <= k <= to ==> (#[trigger] run.states[k]).publishes(slot, ptr),
    ensures
        run.states[end + 1].retired.contains(ptr),
        forall|k: int|
            to < k <= end ==> run.states[k].deletes(#[trigger] run.transitions[k]) != Some(ptr),
{
    law_list_is_locked(run, writer, from, to);
    law_walk_gathers_protected(run, writer, from, to, slot, ptr);
    seen_is_kept(run, writer, to + 1, end, ptr);
    assert forall|k: int| to < k <= end implies run.states[k].deletes(
        #[trigger] run.transitions[k],
    ) != Some(ptr) by {
        seen_is_kept(run, writer, to + 1, k, ptr);
        crate::safety::run_keeps_inv(run, k);
        assert(run.states[k].writers[writer] is Sweeping);
    }
    assert(run.states[end + 1] == run.states[end].after(run.transitions[end]));
}

/// A sweep passes over what was seen.
proof fn seen_is_kept(run: Run, writer: int, from: int, k: int, ptr: usize)
    requires
        run.valid(),
        0 <= from <= k < run.transitions.len(),
        run.states[from].is_writer(writer),
        forall|i: int| from <= i <= k ==> (#[trigger] run.states[i]).writers[writer] is Sweeping,
        run.states[from].writers[writer]->seen.contains(ptr),
        run.states[from].retired.contains(ptr),
    ensures
        run.states[k].is_writer(writer),
        run.states[k].writers[writer]->seen == run.states[from].writers[writer]->seen,
        run.states[k].retired.contains(ptr),
    decreases k - from,
{
    if from < k {
        seen_is_kept(run, writer, from, k - 1, ptr);
        let s = run.states[k - 1];
        let t = run.transitions[k - 1];
        crate::safety::run_keeps_inv(run, k - 1);
        assert(s.writers[writer] is Sweeping);
        assert(s.writer_inv(s.writers[writer]));
        assert(run.states[k] == s.after(t));
        assert(run.states[k].writers[writer] is Sweeping);
        if t == (Transition::SweepNode { writer }) {
            let at = s.writers[writer]->at;
            let i = s.retired.index_of(ptr);
            if run.states[k].retired.len() < s.retired.len() {
                if i == s.retired.len() - 1 {
                    assert(run.states[k].retired[at] == ptr);
                } else {
                    assert(run.states[k].retired[i] == ptr);
                }
            }
        } else {
            others_leave_sweep(s, t, writer);
        }
    }
}

/// In every run, a retired object whose address no linked slot protects while a
/// writer gathers the hazards is deleted by the sweep that follows.
pub proof fn law_unprotected_is_deleted(
    run: Run,
    writer: int,
    from: int,
    to: int,
    end: int,
    ptr: usize,
)
    requires
        run.valid(),
        run.walks(writer, from, to),
        run.sweeps(writer, to + 1, end),
        run.states[from].retired.contains(ptr),
        !run.published_between(from, to, ptr),
    ensures
        !run.states[end + 1].retired.contains(ptr),
        exists|k: int|
            to < k <= end && run.states[k].deletes(#[trigger] run.transitions[k]) == Some(ptr),
{
    law_list_is_locked(run, writer, from, to);
    let seen = run.gathered(writer, to);
    let nodes = run.states[to + 1].retired.map_values(
        |ptr: usize| RetiredNode::<()> { ptr, deleter: () },
    );
    assert(RetiredNode::addresses(nodes) =~= run.states[to + 1].retired);
    law_sweep_is_one_pass(run, writer, to + 1, end, nodes);
    crate::laws::law_sweep_splits(nodes, 0, seen);
    if seen.contains(ptr) {
        law_walk_gathers_only_protected(run, writer, from, to, ptr);
    }
    if run.states[end + 1].retired.contains(ptr) {
        let k = run.states[end + 1].retired.index_of(ptr);
        assert(seen.contains(Sweep::over(nodes, seen).kept[k].ptr));
    }
    retired_leaves_by_deletion(run, to + 1, end + 1, ptr);
}

} // verus!
