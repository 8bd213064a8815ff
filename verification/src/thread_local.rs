use crate::domain::{DomainState, HazardDomain, DEFAULT_THRESHOLD};
use crate::grants::{Claim, Grants};
use crate::hazard::{HazardGuard, HazardPointer, SLOT_ACQUIRED};
use crate::retired::RetiredNode;
use std::collections::HashMap;
use vstd::prelude::*;

verus! {

broadcast use vstd::std_specs::hash::group_hash_axioms;

/// What a process keeps for the functions of this module: one domain for all
/// threads, and one hazard pointer for each thread that has needed one.
pub struct Globals<D> {
    domain: Option<HazardDomain<D>>,
    hazards: HashMap<u64, HazardPointer>,
}

/// What a `Globals` holds.
#[verifier::ext_equal]
pub struct GlobalsState<D> {
    /// The domain, once something has asked for it.
    pub domain: Option<DomainState<D>>,
    /// The slot of each thread's hazard pointer.
    pub slots: Map<u64, usize>,
}

impl<D> GlobalsState<D> {
    /// The domain that a call gets: a new one if there is none.
    pub open spec fn domain_or_new(self) -> DomainState<D> {
        match self.domain {
            Some(domain) => domain,
            None => DomainState::empty(DEFAULT_THRESHOLD),
        }
    }

    /// The state once `thread` has its hazard pointer.
    pub open spec fn with_thread(self, thread: u64) -> GlobalsState<D> {
        if self.slots.contains_key(thread) {
            self
        } else {
            let domain = self.domain_or_new();
            GlobalsState {
                domain: Some(domain.acquired()),
                slots: self.slots.insert(thread, domain.memory.slot_to_acquire() as usize),
            }
        }
    }

    /// The state once `thread` has given its hazard pointer back.
    pub open spec fn without_thread(self, thread: u64) -> GlobalsState<D> {
        if self.slots.contains_key(thread) {
            GlobalsState {
                domain: Some(self.domain->0.released(self.slots[thread])),
                slots: self.slots.remove(thread),
            }
        } else {
            self
        }
    }

    /// The state once `thread` has `address` in its slot.
    pub open spec fn published(self, thread: u64, address: usize) -> GlobalsState<D> {
        let ready = self.with_thread(thread);
        GlobalsState {
            domain: Some(ready.domain->0.published(ready.slots[thread], address)),
            ..ready
        }
    }
}

impl Grants {
    /// The acquisitions once `thread` has its hazard pointer, in the domain of
    /// `globals`, whose acquisitions these are.
    pub open spec fn for_thread<D>(self, globals: GlobalsState<D>, thread: u64) -> Grants {
        if globals.slots.contains_key(thread) {
            self
        } else {
            self.with(globals.domain_or_new().memory.slot_to_acquire() as usize)
        }
    }
}

impl<D> View for Globals<D> {
    type V = GlobalsState<D>;

    closed spec fn view(&self) -> GlobalsState<D> {
        GlobalsState {
            domain: match self.domain {
                Some(domain) => Some(domain@),
                None => None,
            },
            slots: self.hazards@.map_values(|hazard: HazardPointer| hazard.slot()),
        }
    }
}

impl<D: FnOnce(usize)> Globals<D> {
    /// The threads own the slots of their hazard pointers, each its own.
    pub closed spec fn wf(&self) -> bool {
        &&& self.domain matches Some(domain) ==> domain.wf()
        &&& self@.slots_apart()
        &&& forall|t: u64| #[trigger]
            self@.slots.contains_key(t) ==> (self.grants() matches Some(grants) && grants.names(
                self.hazards@[t].claim(),
            ))
    }

    /// Who has acquired the slots of the domain, once there is one.
    pub closed spec fn grants(&self) -> Option<Grants> {
        match self.domain {
            Some(domain) => Some(domain.grants()),
            None => None,
        }
    }

    /// The domain honours `claim`.
    pub open spec fn honours(&self, claim: Claim) -> bool {
        &&& self.grants() matches Some(grants)
        &&& self@.domain matches Some(domain)
        &&& grants.honours(domain, claim)
    }

    /// There is a domain, and if there was one before it is the same, with the same
    /// owners.
    pub open spec fn keeps_grants(&self, before: Globals<D>) -> bool {
        &&& self.grants() is Some
        &&& before.grants() is Some ==> self.grants() == before.grants()
    }

    /// There is a domain, and if there was one before it is the same, with the same
    /// owners and `thread`.
    pub open spec fn grants_thread(&self, before: Globals<D>, thread: u64) -> bool {
        &&& self.grants() is Some
        &&& before.grants() matches Some(grants) ==> self.grants() == Some(
            grants.for_thread(before@, thread),
        )
    }

    /// No two threads share a hazard pointer.
    pub proof fn law_threads_are_apart(&self)
        requires
            self.wf(),
        ensures
            self@.slots_apart(),
            forall|t: u64| #[trigger]
                self@.slots.contains_key(t) ==> (self@.domain matches Some(domain) && self@.slots[t]
                    < domain.memory.slots.len() && domain.memory.slots[self@.slots[t] as int].active
                    == SLOT_ACQUIRED),
            forall|t: u64, u: u64|
                self@.slots.contains_key(t) && self@.slots.contains_key(u) && t != u ==> #[trigger]
                    self@.slots[t] != #[trigger] self@.slots[u],
    {
    }

    /// No domain and no hazard pointers yet.
    pub fn new() -> (globals: Self)
        ensures
            globals.wf(),
            globals@ == (GlobalsState::<D> { domain: None, slots: Map::empty() }),
    {
        let globals = Globals { domain: None, hazards: HashMap::new() };
        assert(globals@.slots =~= Map::empty());
        globals
    }
}

impl<D> GlobalsState<D> {
    /// Every thread's slot is owned, and no two threads share one.
    pub open spec fn slots_apart(self) -> bool {
        &&& forall|t: u64| #[trigger]
            self.slots.contains_key(t) ==> (self.domain matches Some(domain)
                && domain.owns(self.slots[t]))
        &&& forall|t: u64, u: u64|
            self.slots.contains_key(t) && self.slots.contains_key(u) && t != u ==> #[trigger]
                self.slots[t] != #[trigger] self.slots[u]
    }

    /// The threads' slots have not been acquired anew from `before` to `after`.
    pub open spec fn keeps_stamps(self, before: Grants, after: Grants) -> bool {
        &&& before.id == after.id
        &&& forall|t: u64| #[trigger]
            self.slots.contains_key(t) ==> self.slots[t] < before.stamps.len() && self.slots[t]
                < after.stamps.len() && before.stamps[self.slots[t] as int]
                == after.stamps[self.slots[t] as int]
    }

    /// A thread's hazard pointer is acquired once and stays the thread's own.
    pub proof fn law_thread_hp_persists(self, thread: u64)
        ensures
            self.with_thread(thread).slots.contains_key(thread),
            self.with_thread(thread).with_thread(thread) == self.with_thread(thread),
    {
    }

    /// Once there is a global domain every call gets that one.
    pub proof fn law_global_domain_persists(self)
        ensures
            (GlobalsState { domain: Some(self.domain_or_new()), ..self }).domain_or_new()
                == self.domain_or_new(),
    {
    }

    proof fn publishing_keeps_apart(self, thread: u64, address: usize)
        requires
            self.with_thread(thread).slots_apart(),
            self.with_thread(thread).slots.contains_key(thread),
        ensures
            self.published(thread, address).slots_apart(),
    {
        let ready = self.with_thread(thread);
        let after = self.published(thread, address);
        assert forall|t: u64| #[trigger] after.slots.contains_key(t) implies after.domain->0.owns(
            after.slots[t],
        ) by {
            assert(ready.slots.contains_key(t));
        }
    }
}

/// The domain that all threads share. The first call makes it.
pub fn global_domain<D: FnOnce(usize)>(globals: &mut Globals<D>) -> (domain: &mut HazardDomain<D>)
    requires
        old(globals).wf(),
    ensures
        domain.wf(),
        domain@ == old(globals)@.domain_or_new(),
        old(globals)@.domain matches Some(shared) ==> domain@ == shared,
        old(globals)@.domain is None ==> domain@.memory.slots.len() == 0 && domain@.retired.len()
            == 0 && domain@.deleted.len() == 0 && domain@.threshold == 64,
        final(globals)@ == (GlobalsState {
            domain: Some(final(domain)@),
            slots: old(globals)@.slots,
        }),
        old(globals).grants() is Some ==> old(globals).grants() == Some(domain.grants()),
        final(globals).grants() == Some(final(domain).grants()),
        final(domain).wf() && final(globals)@.slots_apart() && final(globals)@.keeps_stamps(
            domain.grants(),
            final(domain).grants(),
        ) ==> final(globals).wf(),
{
    if globals.domain.is_none() {
        globals.domain = Some(HazardDomain::new());
    }
    globals.domain.as_mut().unwrap()
}

/// Makes `domain` the one that all threads share, unless there is one already:
/// then it comes back.
pub fn init_global_domain<D: FnOnce(usize)>(globals: &mut Globals<D>, domain: HazardDomain<D>) -> (result:
    Result<(), HazardDomain<D>>)
    requires
        old(globals).wf(),
        domain.wf(),
    ensures
        final(globals).wf(),
        result is Ok <==> old(globals)@.domain is None,
        result is Ok ==> final(globals)@ == (GlobalsState {
            domain: Some(domain@),
            slots: old(globals)@.slots,
        }),
        result is Ok ==> final(globals).grants() == Some(domain.grants()),
        result matches Err(back) ==> back == domain && *final(globals) == *old(globals),
{
    if globals.domain.is_none() {
        globals.domain = Some(domain);
        Ok(())
    } else {
        Err(domain)
    }
}

/// The hazard pointer of `thread`, and the domain that it belongs to. The first
/// call for a thread acquires it; it stays the thread's own from then on.
pub fn with_thread_hp<D: FnOnce(usize)>(globals: &mut Globals<D>, thread: u64) -> (found: (
    &HazardPointer,
    &mut HazardDomain<D>,
))
    requires
        old(globals).wf(),
    ensures
        old(globals)@.with_thread(thread).slots_apart(),
        old(globals)@.with_thread(thread).slots.contains_key(thread),
        found.0.slot() == old(globals)@.with_thread(thread).slots[thread],
        found.1.wf(),
        found.1.honours(found.0.claim()),
        Some(found.1@) == old(globals)@.with_thread(thread).domain,
        final(globals)@ == (GlobalsState {
            domain: Some(final(found.1)@),
            slots: old(globals)@.with_thread(thread).slots,
        }),
        old(globals).grants() matches Some(grants) ==> found.1.grants() == grants.for_thread(
            old(globals)@,
            thread,
        ),
        final(globals).grants() == Some(final(found.1).grants()),
        final(found.1).wf() && final(globals)@.slots_apart() && final(globals)@.keeps_stamps(
            found.1.grants(),
            final(found.1).grants(),
        ) ==> final(globals).wf(),
{
    if !globals.hazards.contains_key(&thread) {
        let ghost domain = globals@.domain_or_new();
        let shared = global_domain(globals);
        let ghost grants = shared.grants();
        proof {
            shared.law_grants_are_apart();
        }
        let hazard = HazardPointer::new(shared);
        proof {
            if domain.memory.has_free() {
                domain.memory.first_free_exists();
            }
            assert(globals@.slots_apart());
            assert(globals@.keeps_stamps(grants, grants.with(hazard.slot())));
            assert(globals.wf());
        }
        let ghost before = *globals;
        globals.hazards.insert(thread, hazard);
        assert(globals@.slots =~= old(globals)@.with_thread(thread).slots);
        assert forall|t: u64| #[trigger] globals@.slots.contains_key(t) implies (
        globals.grants() matches Some(grants) && grants.names(globals.hazards@[t].claim())) by {
            if t != thread {
                assert(before@.slots.contains_key(t));
            }
        }
    }
    (globals.hazards.get(&thread).unwrap(), globals.domain.as_mut().unwrap())
}

/// Protects what `src` holds, with the hazard pointer of `thread`.
pub fn protect<D: FnOnce(usize)>(globals: &mut Globals<D>, thread: u64, src: &usize) -> (guard: Option<
    HazardGuard,
>)
    requires
        old(globals).wf(),
    ensures
        final(globals).wf(),
        final(globals)@ == old(globals)@.published(thread, *src),
        final(globals)@.domain->0.memory.slots[final(globals)@.slots[thread] as int].protected
            == *src,
        *src != 0 ==> final(globals)@.domain->0.protected().contains(*src),
        final(globals).grants_thread(*old(globals), thread),
        guard is None <==> *src == 0,
        guard matches Some(g) ==> g.ptr() == *src && g.slot() == final(globals)@.slots[thread]
            && final(globals).honours(g.claim()),
{
    let (hazard, domain) = with_thread_hp(globals, thread);
    let guard = hazard.protect(domain, src);
    proof {
        old(globals)@.publishing_keeps_apart(thread, *src);
    }
    guard
}

/// Protects the address `ptr`, with the hazard pointer of `thread`.
pub fn protect_ptr<D: FnOnce(usize)>(globals: &mut Globals<D>, thread: u64, ptr: usize) -> (guard:
    Option<HazardGuard>)
    requires
        old(globals).wf(),
    ensures
        final(globals).wf(),
        final(globals)@ == old(globals)@.published(thread, ptr),
        final(globals)@.domain->0.memory.slots[final(globals)@.slots[thread] as int].protected
            == ptr,
        ptr != 0 ==> final(globals)@.domain->0.protected().contains(ptr),
        final(globals).grants_thread(*old(globals), thread),
        guard is None <==> ptr == 0,
        guard matches Some(g) ==> g.ptr() == ptr && g.slot() == final(globals)@.slots[thread]
            && final(globals).honours(g.claim()),
{
    let (hazard, domain) = with_thread_hp(globals, thread);
    let guard = hazard.protect_ptr(domain, ptr);
    proof {
        old(globals)@.publishing_keeps_apart(thread, ptr);
    }
    guard
}

/// Retires the object at `ptr` in the global domain.
pub fn retire_with_deleter<D: FnOnce(usize)>(globals: &mut Globals<D>, ptr: usize, deleter: D)
    requires
        old(globals).wf(),
        call_requires(deleter, (ptr,)),
    ensures
        final(globals).wf(),
        final(globals)@ == (GlobalsState {
            domain: Some(
                old(globals)@.domain_or_new().retired_with(RetiredNode { ptr, deleter }),
            ),
            ..old(globals)@
        }),
        final(globals).keeps_grants(*old(globals)),
{
    global_domain(globals).retire_with_deleter(ptr, deleter);
}

/// Reclaims in the global domain.
pub fn reclaim<D: FnOnce(usize)>(globals: &mut Globals<D>)
    requires
        old(globals).wf(),
    ensures
        final(globals).wf(),
        final(globals)@ == (GlobalsState {
            domain: Some(old(globals)@.domain_or_new().reclaimed()),
            ..old(globals)@
        }),
        final(globals).keeps_grants(*old(globals)),
{
    global_domain(globals).reclaim();
}

/// Gives back the hazard pointer of a thread that ends.
pub fn release_thread_hp<D: FnOnce(usize)>(globals: &mut Globals<D>, thread: u64)
    requires
        old(globals).wf(),
    ensures
        final(globals).wf(),
        final(globals)@ == old(globals)@.without_thread(thread),
        final(globals).grants() == old(globals).grants(),
{
    let ghost before = globals@;
    assert(before.slots.contains_key(thread) == globals.hazards@.contains_key(thread));
    if let Some(hazard) = globals.hazards.remove(&thread) {
        hazard.release(globals.domain.as_mut().unwrap());
        proof {
            let after = globals@;
            assert(after.slots =~= before.slots.remove(thread));
            assert forall|t: u64| #[trigger] after.slots.contains_key(t) implies (
            after.domain matches Some(domain) && domain.owns(after.slots[t])) by {
                assert(before.slots.contains_key(t));
                assert(before.slots[t] != before.slots[thread]);
            }
        }
    } else {
        assert(globals@.slots =~= before.slots);
    }
}

} // verus!
