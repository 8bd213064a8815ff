//! The threads of a domain, one atomic access at a time.
//!
//! A `System` is any number of readers and writers that share one memory. Each
//! `Transition` is one access by one of them, so a run of the system is an
//! interleaving of accesses in some order that all threads agree on. The
//! readers and the reclaiming writers move by `Acquire`, `Protect`, `Release`,
//! `Reclaim` and `Collect`, which are the machines that the executable code runs.

use crate::acquire::{Acquire, AcquireEvent};
use crate::collect::{CollectPhase, CollectState};
use crate::hazard::SLOT_ACQUIRED;
use crate::memory::Memory;
use crate::protect::Protect;
use crate::reclaim::{ReclaimOutcome, ReclaimState};
use crate::release::Release;
use vstd::prelude::*;

verus! {

/// A user of one hazard pointer.
pub enum Reader {
    /// No hazard pointer.
    Idle,
    /// On the way to a slot.
    Acquiring { acquire: Acquire },
    /// A hazard pointer without a guard.
    Owning { slot: usize },
    /// On the way to a guard for what `sources[source]` holds, or for a pinned
    /// address.
    Protecting { slot: usize, source: int, protect: Protect },
    /// A guard on `ptr`.
    Guarding { slot: usize, ptr: usize },
    /// On the way to giving the slot back.
    Releasing { slot: usize, release: Release },
}

/// A thread that replaces, retires and reclaims objects.
pub enum Writer {
    Idle,
    /// Holds `ptr`, which it has taken out of a shared pointer. Others may have
    /// it too.
    Holding { ptr: usize },
    /// Reclaims: waits for the lock on the retired list.
    Locking,
    /// Reclaims: walks the list of hazards.
    Collecting { walk: CollectState },
    /// Reclaims: has come to position `at` of the retired list.
    Sweeping { seen: Set<usize>, at: int },
    /// Reclaims: is about to unlock the retired list.
    Unlocking,
}

/// The state of all the threads and of what they share.
pub struct System {
    pub memory: Memory,
    /// The slots that are in the list, the oldest first.
    pub chain: Seq<usize>,
    /// The shared pointers; 0 is null.
    pub sources: Seq<usize>,
    /// The addresses at which an object lives.
    pub live: Set<usize>,
    /// The retired list.
    pub retired: Seq<usize>,
    /// The writer that holds the lock on the retired list for reclaiming.
    pub lock: Option<int>,
    pub readers: Seq<Reader>,
    pub writers: Seq<Writer>,
}

/// One access by one thread.
pub enum Transition {
    /// A reader starts to acquire a hazard pointer.
    BeginAcquire { reader: int },
    /// The next access of a reader that acquires.
    AcquireAccess { reader: int },
    /// A reader's exchange of the head fails although the head matches.
    SpuriousFailure { reader: int },
    /// A reader starts to protect what a shared pointer holds.
    BeginProtect { reader: int, source: int },
    /// The next access of a reader that protects.
    ProtectAccess { reader: int },
    /// A reader starts to protect an address.
    BeginProtectPtr { reader: int, ptr: usize },
    /// A reader withdraws its protection and keeps the hazard pointer.
    Clear { reader: int },
    /// A reader starts to give up its hazard pointer.
    BeginRelease { reader: int },
    /// The next store of a reader that gives up its hazard pointer.
    ReleaseAccess { reader: int },
    /// A writer exchanges a shared pointer for null or for a new object at `ptr`.
    Install { writer: int, source: int, ptr: usize },
    /// A writer exchanges a shared pointer for the object that it holds.
    PutBack { writer: int, source: int },
    /// A writer exchanges a shared pointer for what another one holds.
    Share { writer: int, source: int, from: int },
    /// A writer leaves the object that it holds to the others that have it.
    LetGo { writer: int },
    /// A writer retires the object that it holds.
    Retire { writer: int },
    /// A writer starts to reclaim.
    BeginReclaim { writer: int },
    /// A writer that reclaims locks the retired list.
    LockRetired { writer: int },
    /// The next load of a writer that walks the list of hazards.
    CollectAccess { writer: int },
    /// A writer looks at one retired object, and deletes it if it may.
    SweepNode { writer: int },
    /// A writer has come to the end of the retired list.
    EndSweep { writer: int },
    /// A writer that has swept the retired list unlocks it.
    UnlockRetired { writer: int },
}

impl Transition {
    /// The access is one of `reader`'s.
    pub open spec fn by_reader(self, reader: int) -> bool {
        match self {
            Transition::BeginAcquire { reader: r } => r == reader,
            Transition::AcquireAccess { reader: r } => r == reader,
            Transition::SpuriousFailure { reader: r } => r == reader,
            Transition::BeginProtect { reader: r, .. } => r == reader,
            Transition::ProtectAccess { reader: r } => r == reader,
            Transition::BeginProtectPtr { reader: r, .. } => r == reader,
            Transition::Clear { reader: r } => r == reader,
            Transition::BeginRelease { reader: r } => r == reader,
            Transition::ReleaseAccess { reader: r } => r == reader,
            _ => false,
        }
    }
}

impl Acquire {
    /// The slot that an acquiring thread has allocated and not linked yet.
    pub open spec fn private_slot(self) -> Option<usize> {
        match self {
            Acquire::ReloadHead { slot } => Some(slot),
            Acquire::StoreNext { slot, .. } => Some(slot),
            Acquire::SwapHead { slot, .. } => Some(slot),
            _ => None,
        }
    }

    /// The linked slot that an acquiring thread is looking at.
    pub open spec fn visited_slot(self) -> Option<usize> {
        match self {
            Acquire::Claim { slot } => Some(slot),
            Acquire::LoadNext { slot } => Some(slot),
            _ => None,
        }
    }
}

impl Reader {
    /// The slot that a reader owns.
    pub open spec fn owned_slot(self) -> Option<usize> {
        match self {
            Reader::Idle => None,
            Reader::Acquiring { acquire } => acquire.private_slot(),
            Reader::Owning { slot } => Some(slot),
            Reader::Protecting { slot, .. } => Some(slot),
            Reader::Guarding { slot, .. } => Some(slot),
            Reader::Releasing { slot, .. } => Some(slot),
        }
    }

    /// The reader whose acquiring has come to `state`.
    pub open spec fn acquiring(state: Acquire) -> Reader {
        match state {
            Acquire::Done { slot } => Reader::Owning { slot },
            _ => Reader::Acquiring { acquire: state },
        }
    }

    /// The reader whose protecting has come to `state`.
    pub open spec fn protecting(slot: usize, source: int, state: Protect) -> Reader {
        match state {
            Protect::Done { guarded: Some(ptr) } => Reader::Guarding { slot, ptr },
            Protect::Done { guarded: None } => Reader::Owning { slot },
            _ => Reader::Protecting { slot, source, protect: state },
        }
    }

    /// The reader whose releasing has come to `state`.
    pub open spec fn releasing(slot: usize, state: Release) -> Reader {
        match state {
            Release::Done => Reader::Idle,
            _ => Reader::Releasing { slot, release: state },
        }
    }
}

impl Writer {
    /// The writer whose reclaiming has come to `state`.
    pub open spec fn reclaiming(state: ReclaimState) -> Writer {
        match state {
            ReclaimState::Lock => Writer::Locking,
            ReclaimState::Collect => Writer::Collecting {
                walk: CollectState { phase: CollectPhase::LoadHead, seen: Set::empty() },
            },
            ReclaimState::Sweep { seen } => Writer::Sweeping { seen, at: 0 },
            ReclaimState::Unlock => Writer::Unlocking,
            ReclaimState::Done => Writer::Idle,
        }
    }

    /// The writer whose walk has come to `walk`.
    pub open spec fn collecting(walk: CollectState) -> Writer {
        match walk.phase {
            CollectPhase::Done => Writer::reclaiming(
                ReclaimState::Collect.after(ReclaimOutcome::Collected { seen: walk.seen }),
            ),
            _ => Writer::Collecting { walk },
        }
    }

    /// The writer reclaims and has the lock on the retired list.
    pub open spec fn has_lock(self) -> bool {
        self is Collecting || self is Sweeping || self is Unlocking
    }
}

impl System {
    /// The link that leads to the first `k` slots of the chain.
    pub open spec fn chain_link(self, k: int) -> Option<usize> {
        if k <= 0 {
            None
        } else {
            Some(self.chain[k - 1])
        }
    }

    /// A walk that has come to `slot` will still visit `target`.
    pub open spec fn ahead(self, slot: usize, target: usize) -> bool {
        self.chain.index_of(target) <= self.chain.index_of(slot)
    }

    pub open spec fn is_reader(self, reader: int) -> bool {
        0 <= reader < self.readers.len()
    }

    pub open spec fn is_writer(self, writer: int) -> bool {
        0 <= writer < self.writers.len()
    }

    /// The reader has a hazard pointer and no call on it is under way.
    pub open spec fn at_rest(self, reader: int) -> bool {
        self.readers[reader] is Owning || self.readers[reader] is Guarding
    }

    pub open spec fn slot_of(self, reader: int) -> usize {
        self.readers[reader].owned_slot()->0
    }

    pub open spec fn with_reader(self, reader: int, value: Reader) -> System {
        System { readers: self.readers.update(reader, value), ..self }
    }

    pub open spec fn with_writer(self, writer: int, value: Writer) -> System {
        System { writers: self.writers.update(writer, value), ..self }
    }

    /// Nothing has happened yet: no slots, no objects.
    pub open spec fn initial(self) -> bool {
        &&& self.memory.slots.len() == 0
        &&& self.memory.head is None
        &&& self.chain.len() == 0
        &&& forall|i: int| 0 <= i < self.sources.len() ==> self.sources[i] == 0
        &&& self.live == Set::<usize>::empty()
        &&& self.retired.len() == 0
        &&& self.lock is None
        &&& forall|r: int| self.is_reader(r) ==> (#[trigger] self.readers[r]) is Idle
        &&& forall|w: int| self.is_writer(w) ==> (#[trigger] self.writers[w]) is Idle
    }

    /// An object lives at `ptr` and has not been retired, so that a reader may
    /// pin it without validation.
    pub open spec fn can_pin(self, ptr: usize) -> bool {
        self.live.contains(ptr) && !self.retired.contains(ptr)
    }

    /// A shared pointer or a writer other than `writer` has the object at `ptr`.
    pub open spec fn others_have(self, writer: int, ptr: usize) -> bool {
        ||| self.sources.contains(ptr)
        ||| exists|w: int|
            self.is_writer(w) && w != writer && (#[trigger] self.writers[w]) == (Writer::Holding {
                ptr,
            })
    }

    /// The thread can make this access now.
    ///
    /// A new object lives at an address where no other does. A writer retires
    /// an object only once no shared pointer and no other writer has it.
    pub open spec fn enabled(self, transition: Transition) -> bool {
        match transition {
            Transition::BeginAcquire { reader } => {
                &&& self.is_reader(reader)
                &&& self.readers[reader] is Idle
            },
            Transition::AcquireAccess { reader } => {
                &&& self.is_reader(reader)
                &&& self.readers[reader] matches Reader::Acquiring { acquire }
                &&& acquire is Allocate ==> self.memory.slots.len() < usize::MAX
            },
            Transition::SpuriousFailure { reader } => {
                &&& self.is_reader(reader)
                &&& self.readers[reader] matches Reader::Acquiring { acquire }
                &&& acquire is SwapHead
            },
            Transition::BeginProtect { reader, source } => {
                &&& self.is_reader(reader)
                &&& self.at_rest(reader)
                &&& 0 <= source < self.sources.len()
            },
            Transition::ProtectAccess { reader } => {
                &&& self.is_reader(reader)
                &&& self.readers[reader] is Protecting
            },
            Transition::BeginProtectPtr { reader, ptr } => {
                &&& self.is_reader(reader)
                &&& self.at_rest(reader)
            },
            Transition::Clear { reader } => {
                &&& self.is_reader(reader)
                &&& self.at_rest(reader)
            },
            Transition::BeginRelease { reader } => {
                &&& self.is_reader(reader)
                &&& self.at_rest(reader)
            },
            Transition::ReleaseAccess { reader } => {
                &&& self.is_reader(reader)
                &&& self.readers[reader] is Releasing
            },
            Transition::Install { writer, source, ptr } => {
                &&& self.is_writer(writer)
                &&& self.writers[writer] is Idle
                &&& 0 <= source < self.sources.len()
                &&& ptr != 0 ==> !self.live.contains(ptr)
            },
            Transition::PutBack { writer, source } => {
                &&& self.is_writer(writer)
                &&& self.writers[writer] is Holding
                &&& 0 <= source < self.sources.len()
            },
            Transition::Share { writer, source, from } => {
                &&& self.is_writer(writer)
                &&& self.writers[writer] is Idle
                &&& 0 <= source < self.sources.len()
                &&& 0 <= from < self.sources.len()
            },
            Transition::LetGo { writer } => {
                &&& self.is_writer(writer)
                &&& self.writers[writer] matches Writer::Holding { ptr }
                &&& self.others_have(writer, ptr)
            },
            Transition::Retire { writer } => {
                &&& self.is_writer(writer)
                &&& self.writers[writer] matches Writer::Holding { ptr }
                &&& !self.others_have(writer, ptr)
                &&& self.lock is None
            },
            Transition::BeginReclaim { writer } => {
                &&& self.is_writer(writer)
                &&& self.writers[writer] is Idle
            },
            Transition::LockRetired { writer } => {
                &&& self.is_writer(writer)
                &&& self.writers[writer] is Locking
                &&& self.lock is None
            },
            Transition::CollectAccess { writer } => {
                &&& self.is_writer(writer)
                &&& self.writers[writer] is Collecting
            },
            Transition::SweepNode { writer } => {
                &&& self.is_writer(writer)
                &&& self.writers[writer] matches Writer::Sweeping { at, .. }
                &&& at < self.retired.len()
            },
            Transition::EndSweep { writer } => {
                &&& self.is_writer(writer)
                &&& self.writers[writer] matches Writer::Sweeping { at, .. }
                &&& at >= self.retired.len()
            },
            Transition::UnlockRetired { writer } => {
                &&& self.is_writer(writer)
                &&& self.writers[writer] is Unlocking
            },
        }
    }

    /// The state after the access.
    ///
    /// A reader that pins the address of an object that is retired already, or
    /// of none, has stored it in its slot but guards nothing by that.
    pub open spec fn after(self, transition: Transition) -> System {
        match transition {
            Transition::BeginAcquire { reader } => self.with_reader(
                reader,
                Reader::Acquiring { acquire: Acquire::LoadHead },
            ),
            Transition::AcquireAccess { reader } => {
                let state = self.readers[reader]->acquire;
                let step = self.memory.acquire_access(state);
                let next = state.after(step.event);
                System {
                    memory: step.memory,
                    chain: if state is SwapHead && next is Done {
                        self.chain.push(next->Done_slot)
                    } else {
                        self.chain
                    },
                    ..self.with_reader(reader, Reader::acquiring(next))
                }
            },
            Transition::SpuriousFailure { reader } => {
                let state = self.readers[reader]->acquire;
                let next = state.after(AcquireEvent::Swapped { linked: false });
                self.with_reader(reader, Reader::acquiring(next))
            },
            Transition::BeginProtect { reader, source } => self.with_reader(
                reader,
                Reader::Protecting { slot: self.slot_of(reader), source, protect: Protect::Load },
            ),
            Transition::ProtectAccess { reader } => {
                let slot = self.readers[reader]->Protecting_slot;
                let source = self.readers[reader]->source;
                let state = self.readers[reader]->protect;
                let step = self.memory.protect_access(slot, state, self.sources[source]);
                let next = if state matches Protect::Pin { ptr } && !self.can_pin(ptr) {
                    Reader::Owning { slot }
                } else {
                    Reader::protecting(slot, source, state.after(step.event))
                };
                System { memory: step.memory, ..self.with_reader(reader, next) }
            },
            Transition::BeginProtectPtr { reader, ptr } => self.with_reader(
                reader,
                Reader::Protecting {
                    slot: self.slot_of(reader),
                    source: 0,
                    protect: Protect::at_ptr(ptr),
                },
            ),
            Transition::Clear { reader } => System {
                memory: self.memory.with_protected(self.slot_of(reader), 0),
                ..self.with_reader(reader, Reader::Owning { slot: self.slot_of(reader) })
            },
            Transition::BeginRelease { reader } => self.with_reader(
                reader,
                Reader::releasing(self.slot_of(reader), Release::Withdraw),
            ),
            Transition::ReleaseAccess { reader } => {
                let slot = self.readers[reader]->Releasing_slot;
                let state = self.readers[reader]->release;
                System {
                    memory: self.memory.release_access(slot, state),
                    ..self.with_reader(reader, Reader::releasing(slot, state.after()))
                }
            },
            Transition::Install { writer, source, ptr } => {
                let out = self.sources[source];
                System {
                    sources: self.sources.update(source, ptr),
                    live: if ptr != 0 { self.live.insert(ptr) } else { self.live },
                    ..self.with_writer(
                        writer,
                        if out != 0 { Writer::Holding { ptr: out } } else { Writer::Idle },
                    )
                }
            },
            Transition::PutBack { writer, source } => {
                let out = self.sources[source];
                System {
                    sources: self.sources.update(source, self.writers[writer]->Holding_ptr),
                    ..self.with_writer(
                        writer,
                        if out != 0 { Writer::Holding { ptr: out } } else { Writer::Idle },
                    )
                }
            },
            Transition::Share { writer, source, from } => {
                let out = self.sources[source];
                System {
                    sources: self.sources.update(source, self.sources[from]),
                    ..self.with_writer(
                        writer,
                        if out != 0 { Writer::Holding { ptr: out } } else { Writer::Idle },
                    )
                }
            },
            Transition::LetGo { writer } => self.with_writer(writer, Writer::Idle),
            Transition::Retire { writer } => System {
                retired: self.retired.push(self.writers[writer]->ptr),
                ..self.with_writer(writer, Writer::Idle)
            },
            Transition::BeginReclaim { writer } => self.with_writer(
                writer,
                Writer::reclaiming(ReclaimState::Lock),
            ),
            Transition::LockRetired { writer } => System {
                lock: Some(writer),
                ..self.with_writer(
                    writer,
                    Writer::reclaiming(ReclaimState::Lock.after(ReclaimOutcome::Locked)),
                )
            },
            Transition::CollectAccess { writer } => {
                let walk = self.writers[writer]->walk;
                let event = self.memory.collect_access(walk.phase);
                self.with_writer(writer, Writer::collecting(walk.after(event)))
            },
            Transition::SweepNode { writer } => {
                let seen = self.writers[writer]->seen;
                let at = self.writers[writer]->at;
                if seen.contains(self.retired[at]) {
                    self.with_writer(writer, Writer::Sweeping { seen, at: at + 1 })
                } else {
                    System {
                        retired: crate::memory::swap_removed(self.retired, at),
                        live: self.live.remove(self.retired[at]),
                        ..self
                    }
                }
            },
            Transition::EndSweep { writer } => {
                let seen = self.writers[writer]->seen;
                self.with_writer(
                    writer,
                    Writer::reclaiming(ReclaimState::Sweep { seen }.after(ReclaimOutcome::Swept)),
                )
            },
            Transition::UnlockRetired { writer } => System {
                lock: None,
                ..self.with_writer(
                    writer,
                    Writer::reclaiming(ReclaimState::Unlock.after(ReclaimOutcome::Unlocked)),
                )
            },
        }
    }

    /// The address of the object that the access deletes.
    pub open spec fn deletes(self, transition: Transition) -> Option<usize> {
        if transition is SweepNode && self.after(transition).retired.len() < self.retired.len() {
            Some(self.retired[self.writers[transition->SweepNode_writer]->at])
        } else {
            None
        }
    }

    /// The slot that a reader's next access touches.
    pub open spec fn reader_touches(self, reader: Reader) -> Option<usize> {
        match reader {
            Reader::Acquiring { acquire } => match acquire {
                Acquire::Claim { slot } => Some(slot),
                Acquire::LoadNext { slot } => Some(slot),
                Acquire::StoreNext { slot, .. } => Some(slot),
                _ => None,
            },
            _ => reader.owned_slot(),
        }
    }

    /// The slot that a writer's next access touches.
    pub open spec fn writer_touches(self, writer: Writer) -> Option<usize> {
        match writer {
            Writer::Collecting { walk } => match walk.phase {
                CollectPhase::LoadProtected { slot, .. } => Some(slot),
                CollectPhase::LoadNext { slot, .. } => Some(slot),
                _ => None,
            },
            _ => None,
        }
    }

    /// The list of hazards is well linked.
    pub open spec fn list_inv(self) -> bool {
        &&& self.chain.no_duplicates()
        &&& forall|k: int|
            0 <= k < self.chain.len() ==> (#[trigger] self.chain[k]) < self.memory.slots.len()
        &&& self.memory.head == self.chain_link(self.chain.len() as int)
        &&& forall|k: int|
            0 <= k < self.chain.len() ==> self.memory.slots[(
            #[trigger] self.chain[k]) as int].next == self.chain_link(k)
    }

    /// Owned slots are marked, and no two readers own the same one.
    pub open spec fn owner_inv(self) -> bool {
        &&& forall|r: int|
            self.is_reader(r) ==> ((#[trigger] self.readers[r]).owned_slot() matches Some(slot) ==> slot
                < self.memory.slots.len() && self.memory.slots[slot as int].active == SLOT_ACQUIRED)
        &&& forall|r1: int, r2: int|
            self.is_reader(r1) && self.is_reader(r2) && r1 != r2 && (
            #[trigger] self.readers[r1]).owned_slot() is Some ==> self.readers[r1].owned_slot() != (
            #[trigger] self.readers[r2]).owned_slot()
    }

    /// What each reader's state says of the slot that it deals with.
    pub open spec fn reader_inv(self, reader: Reader) -> bool {
        match reader {
            Reader::Idle => true,
            Reader::Acquiring { acquire: state } => {
                &&& state !is Done
                &&& state.visited_slot() matches Some(slot) ==> self.chain.contains(slot)
                &&& state.private_slot() matches Some(slot) ==> !self.chain.contains(slot)
                &&& state matches Acquire::SwapHead { slot, head }
                    ==> self.memory.slots[slot as int].next == head
            },
            Reader::Owning { slot } => self.chain.contains(slot),
            Reader::Protecting { slot, source, protect: state } => {
                &&& self.chain.contains(slot)
                &&& state is Load || state is Validate ==> 0 <= source < self.sources.len()
                &&& state !is Done
                &&& state matches Protect::Publish { ptr } ==> ptr != 0 && 0 <= source
                    < self.sources.len()
                &&& state matches Protect::Pin { ptr } ==> ptr != 0
                &&& state matches Protect::Validate { ptr } ==> ptr != 0
                    && self.memory.slots[slot as int].protected == ptr
            },
            Reader::Guarding { slot, ptr } => {
                &&& self.chain.contains(slot)
                &&& ptr != 0
                &&& self.memory.slots[slot as int].protected == ptr
                &&& self.live.contains(ptr)
            },
            Reader::Releasing { slot, release: state } => {
                &&& self.chain.contains(slot)
                &&& state !is Done
                &&& state is Free ==> self.memory.slots[slot as int].protected == 0
            },
        }
    }

    /// A shared pointer, a writer or the retired list has the object at `ptr`.
    pub open spec fn accounts_for(self, ptr: usize) -> bool {
        ||| self.sources.contains(ptr)
        ||| self.retired.contains(ptr)
        ||| exists|w: int|
            self.is_writer(w) && (#[trigger] self.writers[w]) == (Writer::Holding { ptr })
    }

    /// Linked, held and retired objects are alive, and what is retired is
    /// neither linked nor held.
    pub open spec fn object_inv(self) -> bool {
        &&& !self.live.contains(0)
        &&& forall|i: int|
            0 <= i < self.sources.len() && (#[trigger] self.sources[i]) != 0 ==> self.live.contains(
                self.sources[i],
            ) && !self.retired.contains(self.sources[i])
        &&& forall|w: int|
            self.is_writer(w) ==> ((#[trigger] self.writers[w]) matches Writer::Holding { ptr } ==> ptr
                != 0 && self.live.contains(ptr) && !self.retired.contains(ptr))
        &&& self.retired.no_duplicates()
        &&& forall|i: int|
            0 <= i < self.retired.len() ==> (#[trigger] self.retired[i]) != 0 && self.live.contains(
                self.retired[i],
            )
    }

    /// The lock is held by the one writer that reclaims.
    pub open spec fn lock_inv(self) -> bool {
        &&& forall|w: int|
            self.is_writer(w) ==> ((#[trigger] self.writers[w]).has_lock() <==> self.lock == Some(w))
        &&& self.lock matches Some(w) ==> self.is_writer(w)
    }

    /// A guarded object that is retired has been seen, or will be, by the
    /// writer that reclaims.
    pub open spec fn writer_inv(self, writer: Writer) -> bool {
        match writer {
            Writer::Idle => true,
            Writer::Holding { .. } => true,
            Writer::Locking => true,
            Writer::Unlocking => true,
            Writer::Collecting { walk } => {
                &&& walk.phase !is Done
                &&& walk.phase matches CollectPhase::LoadProtected { slot, .. }
                    ==> self.chain.contains(slot)
                &&& walk.phase matches CollectPhase::LoadNext { slot, .. } ==> self.chain.contains(slot)
                &&& forall|r: int|
                    self.is_reader(r) ==> ((#[trigger] self.readers[r]) matches Reader::Guarding {
                        slot,
                        ptr,
                    } ==> self.retired.contains(ptr) ==> self.will_see(writer, slot, ptr))
            },
            Writer::Sweeping { seen, at } => {
                &&& 0 <= at
                &&& forall|k: int| 0 <= k < at && k < self.retired.len() ==> seen.contains(
                    #[trigger] self.retired[k],
                )
                &&& forall|r: int|
                    self.is_reader(r) ==> ((#[trigger] self.readers[r]) matches Reader::Guarding {
                        slot,
                        ptr,
                    } ==> self.retired.contains(ptr) ==> self.will_see(writer, slot, ptr))
            },
        }
    }

    /// A walk in this phase has still to load what `slot` protects.
    pub open spec fn will_visit(self, phase: CollectPhase, slot: usize) -> bool {
        match phase {
            CollectPhase::LoadHead => true,
            CollectPhase::LoadProtected { slot: here, .. } => self.ahead(here, slot),
            CollectPhase::LoadNext { slot: here, .. } => self.ahead(here, slot) && slot
                != here,
            CollectPhase::Recheck { .. } => false,
            CollectPhase::Done => false,
        }
    }

    /// A linked slot protects `address`.
    pub open spec fn publishes(self, slot: usize, address: usize) -> bool {
        self.chain.contains(slot) && self.memory.slots[slot as int].protected == address
    }

    /// A writer that gathers hazards has `address`, which `slot` protects, or will
    /// find it there.
    pub open spec fn will_see(self, writer: Writer, slot: usize, address: usize) -> bool {
        match writer {
            Writer::Collecting { walk } => walk.seen.contains(address) || self.will_visit(
                walk.phase,
                slot,
            ),
            Writer::Sweeping { seen, .. } => seen.contains(address),
            _ => false,
        }
    }

    /// What holds in every state that the threads can reach.
    pub open spec fn inv(self) -> bool {
        &&& self.list_inv()
        &&& self.owner_inv()
        &&& forall|r: int| self.is_reader(r) ==> self.reader_inv(#[trigger] self.readers[r])
        &&& self.object_inv()
        &&& self.lock_inv()
        &&& forall|w: int| self.is_writer(w) ==> self.writer_inv(#[trigger] self.writers[w])
        &&& forall|s: int|
            0 <= s < self.memory.slots.len() ==> ((#[trigger] self.memory.slots[s]).is_free()
                ==> self.memory.slots[s].protected == 0)
    }
}

/// An interleaving of the threads' accesses.
pub struct Run {
    pub states: Seq<System>,
    pub transitions: Seq<Transition>,
}

impl Run {
    /// The run begins before anything has happened, and each state comes of
    /// the one before it by an access that could be made there.
    pub open spec fn valid(self) -> bool {
        &&& self.states.len() == self.transitions.len() + 1
        &&& self.states[0].initial()
        &&& forall|i: int|
            0 <= i < self.transitions.len() ==> self.states[i].enabled(
                #[trigger] self.transitions[i],
            ) && self.states[i + 1] == self.states[i].after(self.transitions[i])
    }

    /// From state `from`, where it is about to load the head of the list, to
    /// transition `to`, which ends its walk, `writer` gathers hazards.
    pub open spec fn walks(self, writer: int, from: int, to: int) -> bool {
        &&& 0 <= from <= to < self.transitions.len()
        &&& self.states[from].is_writer(writer)
        &&& self.states[from].writers[writer] matches Writer::Collecting { walk }
            && walk.phase is LoadHead
        &&& forall|k: int|
            from <= k <= to ==> (#[trigger] self.states[k]).writers[writer] is Collecting
        &&& self.states[to + 1].writers[writer] is Sweeping
    }

    /// The addresses that `writer` has gathered when transition `to` ends its walk.
    pub open spec fn gathered(self, writer: int, to: int) -> Set<usize> {
        self.states[to + 1].writers[writer]->seen
    }

    /// Some linked slot protects `address` at a moment from state `from` to state
    /// `to`.
    pub open spec fn published_between(self, from: int, to: int, address: usize) -> bool {
        exists|k: int, slot: usize|
            from <= k <= to && #[trigger] self.states[k].publishes(slot, address)
    }

    /// From state `from`, where it is at the start of the retired list, to
    /// transition `to`, which ends its sweep, `writer` sweeps the list.
    pub open spec fn sweeps(self, writer: int, from: int, to: int) -> bool {
        &&& 0 <= from <= to < self.transitions.len()
        &&& self.states[from].is_writer(writer)
        &&& self.states[from].writers[writer] matches Writer::Sweeping { at, .. } && at == 0
        &&& forall|k: int|
            from <= k <= to ==> (#[trigger] self.states[k]).writers[writer] is Sweeping
        &&& self.transitions[to] == (Transition::EndSweep { writer })
    }

    /// The addresses of the objects that the transitions from `from` to before
    /// `to` delete, in order.
    pub open spec fn deleted_between(self, from: int, to: int) -> Seq<usize>
        decreases to - from,
    {
        if from >= to {
            Seq::empty()
        } else {
            match self.states[from].deletes(self.transitions[from]) {
                Some(ptr) => seq![ptr] + self.deleted_between(from + 1, to),
                None => self.deleted_between(from + 1, to),
            }
        }
    }
}

} // verus!
