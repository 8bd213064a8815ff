use std::collections::HashSet;

use loom::sync::atomic::{AtomicUsize, Ordering};
use loom::sync::{Arc, Mutex};
use loom::thread;

use hazard::acquire::{Acquire, AcquireEvent};
use hazard::collect::{Collect, CollectEvent, CollectPhase};
use hazard::hazard::{SLOT_ACQUIRED, SLOT_FREE};
use hazard::protect::{Protect, ProtectEvent};
use hazard::reclaim::{Reclaim, ReclaimEvent};
use hazard::release::Release;
use hazard::retired::RetiredList;

type Deleter = Box<dyn FnOnce(usize)>;

const SLOTS: usize = 3;

struct Slot {
    protected: AtomicUsize,
    next: AtomicUsize,
    active: AtomicUsize,
}

/// A domain that threads share: the machines of the library, run on atomics.
/// A link is stored as the slot's index plus one, and null as 0.
struct SharedDomain {
    slots: Vec<Slot>,
    allocated: std::sync::atomic::AtomicUsize,
    head: AtomicUsize,
    retired: Mutex<RetiredList<Deleter>>,
    threshold: usize,
}

fn link(stored: usize) -> Option<usize> {
    stored.checked_sub(1)
}

fn stored(link: Option<usize>) -> usize {
    link.map_or(0, |slot| slot + 1)
}

impl SharedDomain {
    fn new() -> Self {
        let mut slots = Vec::new();
        for _ in 0..SLOTS {
            slots.push(Slot {
                protected: AtomicUsize::new(0),
                next: AtomicUsize::new(0),
                active: AtomicUsize::new(SLOT_ACQUIRED),
            });
        }
        Self {
            slots,
            allocated: std::sync::atomic::AtomicUsize::new(0),
            head: AtomicUsize::new(0),
            retired: Mutex::new(RetiredList::new()),
            threshold: 64,
        }
    }

    fn acquire(&self) -> usize {
        let mut state = Acquire::start();
        loop {
            let event = match state {
                Acquire::LoadHead | Acquire::ReloadHead { .. } => AcquireEvent::Link {
                    link: link(self.head.load(Ordering::Acquire)),
                },
                Acquire::Claim { slot } => AcquireEvent::Claimed {
                    taken: self.slots[slot]
                        .active
                        .compare_exchange(
                            SLOT_FREE,
                            SLOT_ACQUIRED,
                            Ordering::Acquire,
                            Ordering::Relaxed,
                        )
                        .is_ok(),
                },
                Acquire::LoadNext { slot } => AcquireEvent::Link {
                    link: link(self.slots[slot].next.load(Ordering::Acquire)),
                },
                Acquire::Allocate => AcquireEvent::Allocated {
                    slot: self.allocated.fetch_add(1, Ordering::Relaxed),
                },
                Acquire::StoreNext { slot, head } => {
                    self.slots[slot].next.store(stored(head), Ordering::Relaxed);
                    AcquireEvent::Stored
                }
                Acquire::SwapHead { slot, head } => AcquireEvent::Swapped {
                    linked: self
                        .head
                        .compare_exchange_weak(
                            stored(head),
                            stored(Some(slot)),
                            Ordering::Release,
                            Ordering::Relaxed,
                        )
                        .is_ok(),
                },
                Acquire::Done { slot } => return slot,
            };
            state = state.advance(event);
        }
    }

    fn release(&self, slot: usize) {
        let mut state = Release::start();
        loop {
            match state {
                Release::Withdraw => self.slots[slot].protected.store(0, Ordering::Release),
                Release::Free => self.slots[slot].active.store(SLOT_FREE, Ordering::Release),
                Release::Done => return,
            }
            state = state.advance();
        }
    }

    fn protect(&self, slot: usize, src: &AtomicUsize) -> Option<usize> {
        let mut state = Protect::start();
        loop {
            let event = match state {
                Protect::Load => ProtectEvent::Loaded { ptr: src.load(Ordering::Relaxed) },
                Protect::Clear => {
                    self.clear(slot);
                    ProtectEvent::Stored
                }
                Protect::Publish { ptr } | Protect::Pin { ptr } => {
                    self.slots[slot].protected.store(ptr, Ordering::SeqCst);
                    ProtectEvent::Stored
                }
                Protect::Validate { .. } => ProtectEvent::Loaded { ptr: src.load(Ordering::SeqCst) },
                Protect::Done { guarded } => return guarded,
            };
            state = state.advance(event);
        }
    }

    fn clear(&self, slot: usize) {
        self.slots[slot].protected.store(0, Ordering::SeqCst);
    }

    fn retire(&self, ptr: usize, deleter: Deleter) {
        let due = self.retired.lock().unwrap().retire(ptr, deleter, self.threshold);
        if due {
            self.reclaim();
        }
    }

    fn reclaim(&self) {
        let mut retired = None;
        let mut state = Reclaim::start();
        loop {
            let event = match &state {
                Reclaim::Lock => {
                    retired = Some(self.retired.lock().unwrap());
                    ReclaimEvent::Locked
                }
                Reclaim::Collect => ReclaimEvent::Collected { seen: self.collect_protected() },
                Reclaim::Sweep { seen } => {
                    retired.as_mut().unwrap().reclaim(seen);
                    ReclaimEvent::Swept
                }
                Reclaim::Unlock => {
                    retired = None;
                    ReclaimEvent::Unlocked
                }
                Reclaim::Done => return,
            };
            state = state.advance(event);
        }
    }

    fn collect_protected(&self) -> HashSet<usize> {
        let mut walk = Collect::start();
        loop {
            let event = match walk.phase() {
                CollectPhase::LoadHead | CollectPhase::Recheck { .. } => CollectEvent::Link {
                    link: link(self.head.load(Ordering::Acquire)),
                },
                CollectPhase::LoadProtected { slot, .. } => CollectEvent::Protected {
                    address: self.slots[slot].protected.load(Ordering::SeqCst),
                },
                CollectPhase::LoadNext { slot, .. } => CollectEvent::Link {
                    link: link(self.slots[slot].next.load(Ordering::Acquire)),
                },
                CollectPhase::Done => return walk.finish(),
            };
            walk.advance(event);
        }
    }
}

/// Where the tracker with this value lives.
fn address(value: usize) -> usize {
    8 * (value + 1)
}

fn value(ptr: usize) -> usize {
    ptr / 8 - 1
}

fn counting(counter: &Arc<AtomicUsize>) -> Deleter {
    let counter = counter.clone();
    Box::new(move |_| {
        counter.fetch_add(1, Ordering::SeqCst);
    })
}

#[test]
fn loom_basic_protect_retire() {
    loom::model(|| {
        let domain = Arc::new(SharedDomain::new());
        let counter = Arc::new(AtomicUsize::new(0));

        let node = address(42);
        let shared = Arc::new(AtomicUsize::new(node));

        let hp = domain.acquire();
        let guard = domain.protect(hp, &shared).unwrap();

        assert_eq!(value(guard), 42);

        let old = shared.swap(0, Ordering::SeqCst);
        domain.retire(old, counting(&counter));

        domain.reclaim();
        assert_eq!(counter.load(Ordering::SeqCst), 0);

        domain.clear(hp);
        domain.reclaim();
        assert_eq!(counter.load(Ordering::SeqCst), 1);
    });
}

#[test]
fn loom_concurrent_protect_and_reclaim() {
    loom::model(|| {
        let domain = Arc::new(SharedDomain::new());
        let counter = Arc::new(AtomicUsize::new(0));

        let node = address(1);
        let shared = Arc::new(AtomicUsize::new(node));

        let domain2 = domain.clone();
        let shared2 = shared.clone();
        let counter2 = counter.clone();

        let reader = thread::spawn(move || {
            let hp = domain2.acquire();
            if let Some(guard) = domain2.protect(hp, &shared2) {
                let _ = value(guard);
                domain2.clear(hp);
            }
            domain2.release(hp);
        });

        let domain3 = domain.clone();
        let shared3 = shared.clone();
        let writer = thread::spawn(move || {
            let new_node = address(2);
            let old = shared3.swap(new_node, Ordering::SeqCst);
            if old != 0 {
                domain3.retire(old, counting(&counter2));
            }
            domain3.reclaim();
        });

        reader.join().unwrap();
        writer.join().unwrap();

        let final_ptr = shared.swap(0, Ordering::SeqCst);
        if final_ptr != 0 {
            domain.retire(final_ptr, counting(&counter));
        }
        domain.reclaim();
    });
}

#[test]
fn loom_multiple_protectors() {
    loom::model(|| {
        let domain = Arc::new(SharedDomain::new());
        let counter = Arc::new(AtomicUsize::new(0));

        let node = address(0);
        let shared = Arc::new(AtomicUsize::new(node));

        let mut handles = Vec::new();
        for _ in 0..2 {
            let domain = domain.clone();
            let shared = shared.clone();

            handles.push(thread::spawn(move || {
                let hp = domain.acquire();
                if let Some(guard) = domain.protect(hp, &shared) {
                    let _ = value(guard);
                    domain.clear(hp);
                }
                domain.release(hp);
            }));
        }

        for h in handles {
            h.join().unwrap();
        }

        let final_ptr = shared.swap(0, Ordering::SeqCst);
        if final_ptr != 0 {
            domain.retire(final_ptr, counting(&counter));
        }
        domain.reclaim();
    });
}

#[test]
fn loom_protect_during_swap() {
    loom::model(|| {
        let domain = Arc::new(SharedDomain::new());
        let counter = Arc::new(AtomicUsize::new(0));

        let node = address(1);
        let shared = Arc::new(AtomicUsize::new(node));

        let domain2 = domain.clone();
        let shared2 = shared.clone();

        let protector = thread::spawn(move || {
            let hp = domain2.acquire();
            if domain2.protect(hp, &shared2).is_some() {
                domain2.clear(hp);
            }
            domain2.release(hp);
        });

        let new_node = address(2);
        let old = shared.swap(new_node, Ordering::SeqCst);
        if old != 0 {
            domain.retire(old, counting(&counter));
        }

        protector.join().unwrap();

        let final_ptr = shared.swap(0, Ordering::SeqCst);
        if final_ptr != 0 {
            domain.retire(final_ptr, counting(&counter));
        }
        domain.reclaim();
    });
}

#[test]
fn loom_retire_protected_not_reclaimed() {
    loom::model(|| {
        let domain = Arc::new(SharedDomain::new());
        let counter = Arc::new(AtomicUsize::new(0));

        let node = address(42);
        let shared = Arc::new(AtomicUsize::new(node));

        let domain2 = domain.clone();
        let shared2 = shared.clone();

        let protector = thread::spawn(move || {
            let hp = domain2.acquire();
            let guarded = domain2.protect(hp, &shared2).is_some();
            thread::yield_now();
            if guarded {
                domain2.clear(hp);
            }
            domain2.release(hp);
        });

        thread::yield_now();

        let old = shared.swap(0, Ordering::SeqCst);
        if old != 0 {
            domain.retire(old, counting(&counter));
        }
        domain.reclaim();

        protector.join().unwrap();
        domain.reclaim();

        assert_eq!(counter.load(Ordering::SeqCst), 1);
    });
}
