# hazard

Hazard pointers: safe memory reclamation for lock-free data structures, with
proofs in Verus.

A reader publishes the address it is about to use in a *hazard slot* of a
*domain*. A writer that has unlinked an object *retires* it. A domain reclaims
by walking over its slots and deleting the retired objects whose addresses no
slot holds.

## Layout

- `src/acquire.rs`, `src/release.rs`, `src/protect.rs`, `src/collect.rs`: the
  procedures that race with other threads (taking a slot, giving it back,
  protecting an address, gathering the protected addresses), each as a machine
  that decides one atomic access at a time. `Reclaim` in `src/reclaim.rs` is such
  a machine for the order of a reclamation: lock, gather, sweep, unlock.
- `src/hazard.rs`, `src/domain.rs`, `src/retired.rs`, `src/thread_local.rs`,
  `src/reclaim.rs`: slots, hazard pointers, guards, domains, retired lists, the
  domain that all threads share, and when a background task reclaims. A
  `HazardDomain` runs the machines on memory that it has to itself, and its
  contracts say exactly what each call does.
- `src/memory.rs`: the mathematical model of the slots and their list.
- `src/grants.rs`: who owns which slot. A hazard pointer has a claim to its slot,
  and its guards share it; the contracts admit a call only while the domain
  honours the claim, which ends for good when the slot is given back.
- `src/laws.rs`, `src/history.rs`: what holds of a domain across its operations,
  and from its beginning to its end.
- `src/protocol.rs`, `src/safety.rs`, `src/walks.rs`: any number of readers and writers on shared
  memory, moving by the same machines in any order, the proof that no guarded
  object is deleted, and what a reclamation among them gathers and deletes.
  The order of accesses is one that all threads
  agree on; weaker memory orders are outside the model.
- `app/`: the machines on real atomics and real pointers, with destructors, a
  process-wide domain and background tasks.

The types of `src/` have no destructors: `HazardGuard::release`,
`HazardPointer::release` and `HazardDomain::teardown` stand for them, and the
types of `app/` do the same in `Drop`.

An address is a `usize`, 0 is null, and a deleter is a function that takes the
address. A guard stands for an object that was validated by `protect`, or that
had not been retired when `protect_ptr` stored its address.
