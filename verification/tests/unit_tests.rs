use std::collections::HashMap;
use std::sync::atomic::{AtomicUsize, Ordering};
use std::sync::Arc;

use hazard::{HazardDomain, HazardGuard, HazardPointer, ReclaimTask};

type Deleter = Box<dyn FnOnce(usize)>;

struct Node {
    drop_counter: Arc<AtomicUsize>,
}

impl Drop for Node {
    fn drop(&mut self) {
        self.drop_counter.fetch_add(1, Ordering::SeqCst);
    }
}

/// The values of the nodes, by address.
struct Heap {
    values: HashMap<usize, usize>,
}

impl Heap {
    fn new() -> Self {
        Self { values: HashMap::new() }
    }

    fn node(&mut self, value: usize, drop_counter: Arc<AtomicUsize>) -> (usize, Deleter) {
        let node = Box::new(Node { drop_counter });
        let ptr = std::ptr::from_ref(&*node).addr();
        self.values.insert(ptr, value);
        (ptr, Box::new(move |_| drop(node)))
    }

    fn value(&self, guard: &HazardGuard) -> usize {
        self.values[&guard.as_ptr()]
    }
}

fn retire(domain: &mut HazardDomain<Deleter>, object: (usize, Deleter)) {
    domain.retire_with_deleter(object.0, object.1);
}

#[test]
fn test_basic_protect_and_retire() {
    let mut domain = HazardDomain::new();
    let mut heap = Heap::new();
    let drop_counter = Arc::new(AtomicUsize::new(0));

    let node = heap.node(42, drop_counter.clone());
    let mut shared = node.0;

    let hp = HazardPointer::new(&mut domain);
    let guard = hp.protect(&mut domain, &shared).unwrap();
    assert_eq!(heap.value(&guard), 42);

    let old_ptr = std::mem::replace(&mut shared, 0);
    assert_eq!(old_ptr, node.0);
    retire(&mut domain, node);

    domain.reclaim();
    assert_eq!(drop_counter.load(Ordering::SeqCst), 0);

    guard.release(&mut domain);

    domain.reclaim();
    assert_eq!(drop_counter.load(Ordering::SeqCst), 1);
}

#[test]
fn test_unprotected_immediate_reclaim() {
    let mut domain = HazardDomain::new();
    let mut heap = Heap::new();
    let drop_counter = Arc::new(AtomicUsize::new(0));

    let node = heap.node(100, drop_counter.clone());

    retire(&mut domain, node);
    assert_eq!(drop_counter.load(Ordering::SeqCst), 0);

    domain.reclaim();
    assert_eq!(drop_counter.load(Ordering::SeqCst), 1);
}

#[test]
fn test_multiple_hazard_pointers() {
    let mut domain = HazardDomain::new();
    let mut heap = Heap::new();
    let drop_counter = Arc::new(AtomicUsize::new(0));

    let node1 = heap.node(1, drop_counter.clone());
    let node2 = heap.node(2, drop_counter.clone());

    let mut ptr1 = node1.0;
    let mut ptr2 = node2.0;

    let hp1 = HazardPointer::new(&mut domain);
    let hp2 = HazardPointer::new(&mut domain);

    let guard1 = hp1.protect(&mut domain, &ptr1).unwrap();
    let guard2 = hp2.protect(&mut domain, &ptr2).unwrap();

    assert_eq!(heap.value(&guard1), 1);
    assert_eq!(heap.value(&guard2), 2);

    let old1 = std::mem::replace(&mut ptr1, 0);
    let old2 = std::mem::replace(&mut ptr2, 0);
    assert_eq!((old1, old2), (node1.0, node2.0));

    retire(&mut domain, node1);
    retire(&mut domain, node2);

    domain.reclaim();
    assert_eq!(drop_counter.load(Ordering::SeqCst), 0);

    guard1.release(&mut domain);
    domain.reclaim();
    assert_eq!(drop_counter.load(Ordering::SeqCst), 1);

    guard2.release(&mut domain);
    domain.reclaim();
    assert_eq!(drop_counter.load(Ordering::SeqCst), 2);
}

#[test]
fn test_hazard_pointer_reuse() {
    let mut domain: HazardDomain<Deleter> = HazardDomain::new();

    {
        let hp1 = HazardPointer::new(&mut domain);
        let hp2 = HazardPointer::new(&mut domain);
        hp2.release(&mut domain);
        hp1.release(&mut domain);
    }

    let _hp3 = HazardPointer::new(&mut domain);
    let _hp4 = HazardPointer::new(&mut domain);
}

#[test]
fn test_null_pointer_protection() {
    let mut domain: HazardDomain<Deleter> = HazardDomain::new();
    let shared: usize = 0;

    let hp = HazardPointer::new(&mut domain);
    let guard = hp.protect(&mut domain, &shared);

    assert!(guard.is_none());
}

#[test]
fn test_domain_drop_reclaims_all() {
    let drop_counter = Arc::new(AtomicUsize::new(0));

    {
        let mut domain = HazardDomain::new();
        let mut heap = Heap::new();

        for i in 0..10 {
            let node = heap.node(i, drop_counter.clone());
            retire(&mut domain, node);
        }

        assert_eq!(drop_counter.load(Ordering::SeqCst), 0);
        domain.teardown();
    }

    assert_eq!(drop_counter.load(Ordering::SeqCst), 10);
}

#[test]
fn test_auto_reclaim_threshold() {
    let mut domain = HazardDomain::with_threshold(5);
    let mut heap = Heap::new();
    let drop_counter = Arc::new(AtomicUsize::new(0));

    for i in 0..4 {
        let node = heap.node(i, drop_counter.clone());
        retire(&mut domain, node);
    }

    assert_eq!(drop_counter.load(Ordering::SeqCst), 0);

    let node = heap.node(5, drop_counter.clone());
    retire(&mut domain, node);

    assert_eq!(drop_counter.load(Ordering::SeqCst), 5);
}

#[test]
fn a_task_without_threshold_reclaims_at_every_tick() {
    let mut domain = HazardDomain::with_threshold(1000);
    let mut heap = Heap::new();
    let drop_counter = Arc::new(AtomicUsize::new(0));
    let task = ReclaimTask::EveryTick;

    task.tick(&mut domain);
    assert_eq!(domain.retired_count(), 0);

    for i in 0..10 {
        let node = heap.node(i, drop_counter.clone());
        retire(&mut domain, node);
    }
    assert_eq!(drop_counter.load(Ordering::SeqCst), 0);

    task.tick(&mut domain);
    assert_eq!(drop_counter.load(Ordering::SeqCst), 10);
    assert!(task.due(0));
}

#[test]
fn a_task_with_threshold_waits_for_it() {
    let mut domain = HazardDomain::with_threshold(1000);
    let mut heap = Heap::new();
    let drop_counter = Arc::new(AtomicUsize::new(0));
    let task = ReclaimTask::AtThreshold { threshold: 5 };

    for i in 0..4 {
        let node = heap.node(i, drop_counter.clone());
        retire(&mut domain, node);
    }
    assert!(!task.due(domain.retired_count()));
    task.tick(&mut domain);
    assert_eq!(drop_counter.load(Ordering::SeqCst), 0);

    let node = heap.node(4, drop_counter.clone());
    retire(&mut domain, node);
    assert!(task.due(domain.retired_count()));
    task.tick(&mut domain);
    assert_eq!(drop_counter.load(Ordering::SeqCst), 5);
}

#[test]
fn a_task_with_threshold_zero_is_always_due() {
    let task = ReclaimTask::AtThreshold { threshold: 0 };
    assert!(task.due(0));
    assert!(task.due(usize::MAX));
}
