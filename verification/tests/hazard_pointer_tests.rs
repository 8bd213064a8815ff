use std::collections::HashMap;
use std::sync::atomic::{AtomicUsize, Ordering};
use std::sync::Arc;

use hazard::{HazardDomain, HazardGuard, HazardPointer};

type Deleter = Box<dyn FnOnce(usize)>;

struct DropTracker {
    counter: Arc<AtomicUsize>,
}

impl Drop for DropTracker {
    fn drop(&mut self) {
        self.counter.fetch_add(1, Ordering::SeqCst);
    }
}

/// The values of the trackers, by address.
struct Heap {
    values: HashMap<usize, usize>,
}

impl Heap {
    fn new() -> Self {
        Self { values: HashMap::new() }
    }

    fn boxed(&mut self, value: usize, counter: Arc<AtomicUsize>) -> (usize, Deleter) {
        let tracker = Box::new(DropTracker { counter });
        let ptr = std::ptr::from_ref(&*tracker).addr();
        self.values.insert(ptr, value);
        (ptr, Box::new(move |_| drop(tracker)))
    }

    fn value(&self, guard: &HazardGuard) -> usize {
        self.values[&guard.as_ptr()]
    }
}

fn retire(domain: &mut HazardDomain<Deleter>, object: (usize, Deleter)) {
    domain.retire_with_deleter(object.0, object.1);
}

#[test]
fn protect_returns_none_for_null_pointer() {
    let mut domain: HazardDomain<Deleter> = HazardDomain::new();
    let shared: usize = 0;

    let hp = HazardPointer::new(&mut domain);
    let guard = hp.protect(&mut domain, &shared);

    assert!(guard.is_none());
}

#[test]
fn protect_returns_some_for_valid_pointer() {
    let mut domain: HazardDomain<Deleter> = HazardDomain::new();
    let object = Box::new(42u64);
    let shared = std::ptr::from_ref(&*object).addr();

    let hp = HazardPointer::new(&mut domain);
    let guard = hp.protect(&mut domain, &shared);

    assert!(guard.is_some());
    assert_eq!(guard.unwrap().as_ptr(), std::ptr::from_ref(&*object).addr());
    assert_eq!(*object, 42);
}

#[test]
fn protect_ptr_directly_protects_loaded_pointer() {
    let mut domain = HazardDomain::new();
    let mut heap = Heap::new();
    let counter = Arc::new(AtomicUsize::new(0));

    let ptr = heap.boxed(42, counter.clone());

    let hp = HazardPointer::new(&mut domain);
    let guard = hp.protect_ptr(&mut domain, ptr.0);

    assert!(guard.is_some());
    assert_eq!(heap.value(guard.as_ref().unwrap()), 42);

    retire(&mut domain, ptr);
    domain.reclaim();

    assert_eq!(counter.load(Ordering::SeqCst), 0);

    guard.unwrap().release(&mut domain);
    domain.reclaim();

    assert_eq!(counter.load(Ordering::SeqCst), 1);
}

#[test]
fn hazard_pointer_tests_protect_ptr_returns_none_for_null() {
    let mut domain: HazardDomain<Deleter> = HazardDomain::new();
    let hp = HazardPointer::new(&mut domain);

    let guard = hp.protect_ptr(&mut domain, 0);
    assert!(guard.is_none());
}

#[test]
fn clear_removes_protection() {
    let mut domain = HazardDomain::new();
    let mut heap = Heap::new();
    let counter = Arc::new(AtomicUsize::new(0));

    let ptr = heap.boxed(42, counter.clone());

    let hp = HazardPointer::new(&mut domain);
    let guard = hp.protect(&mut domain, &ptr.0).unwrap();

    retire(&mut domain, ptr);
    domain.reclaim();
    assert_eq!(counter.load(Ordering::SeqCst), 0);

    guard.release(&mut domain);
    hp.clear(&mut domain);

    domain.reclaim();
    assert_eq!(counter.load(Ordering::SeqCst), 1);
}

#[test]
fn guard_as_ptr_works() {
    let mut domain: HazardDomain<Deleter> = HazardDomain::new();
    let object = Box::new(42u64);
    let ptr = std::ptr::from_ref(&*object).addr();

    let hp = HazardPointer::new(&mut domain);
    let guard = hp.protect(&mut domain, &ptr).unwrap();

    assert_eq!(guard.as_ptr(), ptr);

    guard.release(&mut domain);
}

#[test]
fn guard_drop_clears_hazard_pointer() {
    let mut domain = HazardDomain::new();
    let mut heap = Heap::new();
    let counter = Arc::new(AtomicUsize::new(0));

    let ptr = heap.boxed(42, counter.clone());

    let hp = HazardPointer::new(&mut domain);

    {
        let guard = hp.protect(&mut domain, &ptr.0).unwrap();
        retire(&mut domain, ptr);
        domain.reclaim();
        assert_eq!(counter.load(Ordering::SeqCst), 0);
        guard.release(&mut domain);
    }

    domain.reclaim();
    assert_eq!(counter.load(Ordering::SeqCst), 1);
}

#[test]
fn hazard_pointer_reuse_after_drop() {
    let mut domain: HazardDomain<Deleter> = HazardDomain::new();

    {
        let hp1 = HazardPointer::new(&mut domain);
        let hp2 = HazardPointer::new(&mut domain);
        hp2.release(&mut domain);
        hp1.release(&mut domain);
    }

    let hp3 = HazardPointer::new(&mut domain);
    let hp4 = HazardPointer::new(&mut domain);

    let object = Box::new(42u64);
    let shared = std::ptr::from_ref(&*object).addr();

    let guard3 = hp3.protect(&mut domain, &shared);
    let guard4 = hp4.protect(&mut domain, &shared);

    assert!(guard3.is_some());
    assert!(guard4.is_some());

    guard3.unwrap().release(&mut domain);
    guard4.unwrap().release(&mut domain);
}

#[test]
fn multiple_guards_from_multiple_hazard_pointers() {
    let mut domain = HazardDomain::new();
    let mut heap = Heap::new();
    let counter = Arc::new(AtomicUsize::new(0));

    let ptr1 = heap.boxed(1, counter.clone());
    let ptr2 = heap.boxed(2, counter.clone());
    let ptr3 = heap.boxed(3, counter.clone());

    let hp1 = HazardPointer::new(&mut domain);
    let hp2 = HazardPointer::new(&mut domain);
    let hp3 = HazardPointer::new(&mut domain);

    let guard1 = hp1.protect(&mut domain, &ptr1.0).unwrap();
    let guard2 = hp2.protect(&mut domain, &ptr2.0).unwrap();
    let guard3 = hp3.protect(&mut domain, &ptr3.0).unwrap();

    assert_eq!(heap.value(&guard1), 1);
    assert_eq!(heap.value(&guard2), 2);
    assert_eq!(heap.value(&guard3), 3);

    retire(&mut domain, ptr1);
    retire(&mut domain, ptr2);
    retire(&mut domain, ptr3);

    domain.reclaim();
    assert_eq!(counter.load(Ordering::SeqCst), 0);

    guard1.release(&mut domain);
    domain.reclaim();
    assert_eq!(counter.load(Ordering::SeqCst), 1);

    guard2.release(&mut domain);
    guard3.release(&mut domain);
    domain.reclaim();
    assert_eq!(counter.load(Ordering::SeqCst), 3);
}

#[test]
fn re_protection_overwrites_previous() {
    let mut domain = HazardDomain::new();
    let mut heap = Heap::new();
    let counter = Arc::new(AtomicUsize::new(0));

    let ptr1 = heap.boxed(1, counter.clone());
    let ptr2 = heap.boxed(2, counter.clone());

    let hp = HazardPointer::new(&mut domain);

    let guard1 = hp.protect(&mut domain, &ptr1.0).unwrap();
    assert_eq!(heap.value(&guard1), 1);
    guard1.release(&mut domain);

    retire(&mut domain, ptr1);

    let guard2 = hp.protect(&mut domain, &ptr2.0).unwrap();
    assert_eq!(heap.value(&guard2), 2);

    domain.reclaim();
    assert_eq!(counter.load(Ordering::SeqCst), 1);

    retire(&mut domain, ptr2);
    domain.reclaim();
    assert_eq!(counter.load(Ordering::SeqCst), 1);

    guard2.release(&mut domain);
    domain.reclaim();
    assert_eq!(counter.load(Ordering::SeqCst), 2);
}

#[test]
fn hazard_pointer_is_send() {
    fn assert_send<T: Send>() {}
    assert_send::<HazardPointer>();
}

#[test]
fn protect_same_pointer_multiple_times() {
    let mut domain = HazardDomain::new();
    let mut heap = Heap::new();
    let counter = Arc::new(AtomicUsize::new(0));

    let ptr = heap.boxed(42, counter.clone());

    let hp1 = HazardPointer::new(&mut domain);
    let hp2 = HazardPointer::new(&mut domain);

    let guard1 = hp1.protect(&mut domain, &ptr.0).unwrap();
    let guard2 = hp2.protect(&mut domain, &ptr.0).unwrap();

    assert_eq!(heap.value(&guard1), 42);
    assert_eq!(heap.value(&guard2), 42);
    assert_eq!(guard1.as_ptr(), guard2.as_ptr());

    retire(&mut domain, ptr);
    domain.reclaim();
    assert_eq!(counter.load(Ordering::SeqCst), 0);

    guard1.release(&mut domain);
    domain.reclaim();
    assert_eq!(counter.load(Ordering::SeqCst), 0);

    guard2.release(&mut domain);
    domain.reclaim();
    assert_eq!(counter.load(Ordering::SeqCst), 1);
}
