use std::cell::Cell;
use std::collections::HashMap;
use std::rc::Rc;
use std::sync::atomic::{AtomicUsize, Ordering};
use std::sync::{Arc, Mutex};

use hazard::{HazardDomain, HazardGuard, HazardPointer};

type Deleter = Box<dyn FnOnce(usize)>;

struct DropTracker {
    counter: Arc<AtomicUsize>,
}

impl Drop for DropTracker {
    fn drop(&mut self) {
        self.counter.fetch_add(1, Ordering::SeqCst);
    }
}

/// An object on the heap, and the deleter that frees it.
fn object<T: 'static>(value: T) -> (usize, Deleter) {
    let boxed = Box::new(value);
    let ptr = std::ptr::from_ref(&*boxed).addr();
    (ptr, Box::new(move |_| drop(boxed)))
}

/// The values of the trackers, by address.
struct Heap {
    values: HashMap<usize, usize>,
}

impl Heap {
    fn new() -> Self {
        Self { values: HashMap::new() }
    }

    fn boxed(&mut self, value: usize, counter: Arc<AtomicUsize>) -> (usize, Deleter) {
        let tracker = object(DropTracker { counter });
        self.values.insert(tracker.0, value);
        tracker
    }

    fn value(&self, guard: &HazardGuard) -> usize {
        self.values[&guard.as_ptr()]
    }
}

fn retire(domain: &mut HazardDomain<Deleter>, object: (usize, Deleter)) {
    domain.retire_with_deleter(object.0, object.1);
}

/// A tracker in a block of `size` bytes at a multiple of `align`, and the
/// deleter that frees both.
fn aligned(align: usize, size: usize, counter: Arc<AtomicUsize>) -> (usize, Deleter) {
    let block = vec![0u8; size + align];
    let ptr = block.as_ptr().addr().next_multiple_of(align);
    let tracker = DropTracker { counter };
    (
        ptr,
        Box::new(move |at| {
            assert_eq!(at % align, 0);
            drop(tracker);
            drop(block);
        }),
    )
}

#[test]
fn large_object_retirement_and_reclamation() {
    let mut domain = HazardDomain::new();
    let counter = Arc::new(AtomicUsize::new(0));

    for _ in 0..10 {
        let obj = aligned(4096, 65536, counter.clone());
        retire(&mut domain, obj);
    }

    domain.reclaim();
    assert_eq!(counter.load(Ordering::SeqCst), 10);
}

#[test]
fn zero_sized_type_protection() {
    struct ZeroSized;

    impl Drop for ZeroSized {
        fn drop(&mut self) {}
    }

    let mut domain: HazardDomain<Deleter> = HazardDomain::new();

    let ptr = object(ZeroSized);
    let shared = ptr.0;

    let hp = HazardPointer::new(&mut domain);
    let guard = hp.protect(&mut domain, &shared);

    assert!(guard.is_some());

    guard.unwrap().release(&mut domain);
}

#[test]
fn drop_order_multiple_guards() {
    let mut domain = HazardDomain::new();
    let order = Arc::new(AtomicUsize::new(0));

    struct OrderTracker {
        id: usize,
        order: Arc<AtomicUsize>,
        drop_order: Arc<Mutex<Vec<usize>>>,
    }

    impl Drop for OrderTracker {
        fn drop(&mut self) {
            let mut vec = self.drop_order.lock().unwrap();
            vec.push(self.id);
            self.order.fetch_add(1, Ordering::SeqCst);
        }
    }

    let drop_order = Arc::new(Mutex::new(Vec::new()));
    let mut ids = HashMap::new();

    let ptr1 = object(OrderTracker {
        id: 1,
        order: order.clone(),
        drop_order: drop_order.clone(),
    });
    let ptr2 = object(OrderTracker {
        id: 2,
        order: order.clone(),
        drop_order: drop_order.clone(),
    });
    let ptr3 = object(OrderTracker {
        id: 3,
        order: order.clone(),
        drop_order: drop_order.clone(),
    });
    ids.insert(ptr1.0, 1);
    ids.insert(ptr2.0, 2);
    ids.insert(ptr3.0, 3);

    let hp1 = HazardPointer::new(&mut domain);
    let hp2 = HazardPointer::new(&mut domain);
    let hp3 = HazardPointer::new(&mut domain);

    let guard1 = hp1.protect(&mut domain, &ptr1.0).unwrap();
    let guard2 = hp2.protect(&mut domain, &ptr2.0).unwrap();
    let guard3 = hp3.protect(&mut domain, &ptr3.0).unwrap();

    assert_eq!(ids[&guard1.as_ptr()], 1);
    assert_eq!(ids[&guard2.as_ptr()], 2);
    assert_eq!(ids[&guard3.as_ptr()], 3);

    retire(&mut domain, ptr1);
    retire(&mut domain, ptr2);
    retire(&mut domain, ptr3);

    domain.reclaim();
    assert_eq!(order.load(Ordering::SeqCst), 0);

    guard2.release(&mut domain);
    domain.reclaim();
    assert_eq!(order.load(Ordering::SeqCst), 1);
    assert_eq!(drop_order.lock().unwrap()[0], 2);

    guard1.release(&mut domain);
    guard3.release(&mut domain);
    domain.reclaim();
    assert_eq!(order.load(Ordering::SeqCst), 3);
}

#[test]
fn alignment_edge_cases() {
    let mut domain = HazardDomain::new();
    let counter = Arc::new(AtomicUsize::new(0));

    let p1 = aligned(1, 8, counter.clone());
    let p8 = aligned(8, 8, counter.clone());
    let p64 = aligned(64, 8, counter.clone());
    let p256 = aligned(256, 8, counter.clone());

    let hp = HazardPointer::new(&mut domain);

    let g1 = hp.protect(&mut domain, &p1.0);
    assert!(g1.is_some());
    g1.unwrap().release(&mut domain);

    let g8 = hp.protect(&mut domain, &p8.0);
    assert!(g8.is_some());
    g8.unwrap().release(&mut domain);

    let g64 = hp.protect(&mut domain, &p64.0);
    assert!(g64.is_some());
    g64.unwrap().release(&mut domain);

    let g256 = hp.protect(&mut domain, &p256.0);
    assert!(g256.is_some());
    g256.unwrap().release(&mut domain);

    retire(&mut domain, p1);
    retire(&mut domain, p8);
    retire(&mut domain, p64);
    retire(&mut domain, p256);

    domain.reclaim();

    assert_eq!(counter.load(Ordering::SeqCst), 4);
}

#[test]
fn very_high_threshold_domain() {
    let mut domain = HazardDomain::with_threshold(usize::MAX);
    let mut heap = Heap::new();
    let counter = Arc::new(AtomicUsize::new(0));

    for i in 0..100 {
        let tracker = heap.boxed(i, counter.clone());
        retire(&mut domain, tracker);
    }

    assert_eq!(counter.load(Ordering::SeqCst), 0);
    assert_eq!(domain.retired_count(), 100);

    domain.reclaim();
    assert_eq!(counter.load(Ordering::SeqCst), 100);
}

#[test]
fn protect_immediately_after_clear() {
    let mut domain = HazardDomain::new();
    let mut heap = Heap::new();
    let counter = Arc::new(AtomicUsize::new(0));

    let ptr1 = heap.boxed(1, counter.clone());
    let ptr2 = heap.boxed(2, counter.clone());

    let hp = HazardPointer::new(&mut domain);

    let guard1 = hp.protect(&mut domain, &ptr1.0).unwrap();
    assert_eq!(heap.value(&guard1), 1);

    hp.clear(&mut domain);

    let guard2 = hp.protect(&mut domain, &ptr2.0).unwrap();
    assert_eq!(heap.value(&guard2), 2);

    retire(&mut domain, ptr1);
    domain.reclaim();
    assert_eq!(counter.load(Ordering::SeqCst), 1);

    guard1.release(&mut domain);
    guard2.release(&mut domain);

    retire(&mut domain, ptr2);
    domain.reclaim();
    assert_eq!(counter.load(Ordering::SeqCst), 2);
}

#[test]
fn nested_data_structures() {
    struct Node {
        value: i32,
        children: Vec<Box<Node>>,
        counter: Arc<AtomicUsize>,
    }

    impl Drop for Node {
        fn drop(&mut self) {
            self.counter.fetch_add(1, Ordering::SeqCst);
        }
    }

    let mut domain: HazardDomain<Deleter> = HazardDomain::new();
    let counter = Arc::new(AtomicUsize::new(0));

    let leaf1 = Node {
        value: 1,
        children: vec![],
        counter: counter.clone(),
    };

    let leaf2 = Node {
        value: 2,
        children: vec![],
        counter: counter.clone(),
    };

    let root = Rc::new(Node {
        value: 0,
        children: vec![Box::new(leaf1), Box::new(leaf2)],
        counter: counter.clone(),
    });
    let shared = std::ptr::from_ref(&*root).addr();

    let hp = HazardPointer::new(&mut domain);

    let guard = hp.protect(&mut domain, &shared).unwrap();
    assert_eq!(guard.as_ptr(), std::ptr::from_ref(&*root).addr());
    assert_eq!(root.value, 0);
    assert_eq!(root.children.len(), 2);
    assert_eq!(root.children[0].value, 1);
    assert_eq!(root.children[1].value, 2);

    guard.release(&mut domain);

    domain.retire_with_deleter(shared, Box::new(move |_| drop(root)));
    domain.reclaim();

    assert_eq!(counter.load(Ordering::SeqCst), 3);
}

#[test]
fn protect_ptr_then_protect_atomic() {
    let mut domain = HazardDomain::new();
    let mut heap = Heap::new();
    let counter = Arc::new(AtomicUsize::new(0));

    let ptr1 = heap.boxed(1, counter.clone());
    let ptr2 = heap.boxed(2, counter.clone());

    let hp = HazardPointer::new(&mut domain);

    let guard1 = hp.protect_ptr(&mut domain, ptr1.0).unwrap();
    assert_eq!(heap.value(&guard1), 1);

    guard1.release(&mut domain);

    let guard2 = hp.protect(&mut domain, &ptr2.0).unwrap();
    assert_eq!(heap.value(&guard2), 2);

    retire(&mut domain, ptr1);
    domain.reclaim();
    assert_eq!(counter.load(Ordering::SeqCst), 1);

    guard2.release(&mut domain);
    retire(&mut domain, ptr2);
    domain.reclaim();
    assert_eq!(counter.load(Ordering::SeqCst), 2);
}

#[test]
fn multiple_sequential_protections_same_hp() {
    let mut domain = HazardDomain::new();
    let mut heap = Heap::new();
    let counter = Arc::new(AtomicUsize::new(0));

    let hp = HazardPointer::new(&mut domain);

    for i in 0..100 {
        let ptr = heap.boxed(i, counter.clone());

        let guard = hp.protect(&mut domain, &ptr.0).unwrap();
        assert_eq!(heap.value(&guard), i);

        guard.release(&mut domain);
        retire(&mut domain, ptr);
    }

    domain.reclaim();
    assert_eq!(counter.load(Ordering::SeqCst), 100);
}

#[test]
fn retire_during_active_protection() {
    let mut domain = HazardDomain::new();
    let mut heap = Heap::new();
    let counter = Arc::new(AtomicUsize::new(0));

    let ptr = heap.boxed(42, counter.clone());

    let hp = HazardPointer::new(&mut domain);
    let guard = hp.protect(&mut domain, &ptr.0).unwrap();

    retire(&mut domain, ptr);
    domain.reclaim();
    domain.reclaim();
    domain.reclaim();

    assert_eq!(counter.load(Ordering::SeqCst), 0);
    assert_eq!(heap.value(&guard), 42);

    guard.release(&mut domain);
    domain.reclaim();

    assert_eq!(counter.load(Ordering::SeqCst), 1);
}

#[test]
fn domain_with_only_protected_objects() {
    let mut domain = HazardDomain::new();
    let mut heap = Heap::new();
    let counter = Arc::new(AtomicUsize::new(0));

    let ptr = heap.boxed(1, counter.clone());

    let hp = HazardPointer::new(&mut domain);
    let _guard = hp.protect(&mut domain, &ptr.0).unwrap();

    retire(&mut domain, ptr);

    for _ in 0..10 {
        domain.reclaim();
    }

    assert_eq!(counter.load(Ordering::SeqCst), 0);
    assert_eq!(domain.retired_count(), 1);
}

#[test]
fn protection_with_interior_mutability() {
    struct MutableData {
        value: Cell<usize>,
        counter: Arc<AtomicUsize>,
    }

    impl Drop for MutableData {
        fn drop(&mut self) {
            self.counter.fetch_add(1, Ordering::SeqCst);
        }
    }

    let mut domain: HazardDomain<Deleter> = HazardDomain::new();
    let counter = Arc::new(AtomicUsize::new(0));

    let data = Rc::new(MutableData {
        value: Cell::new(0),
        counter: counter.clone(),
    });
    let shared = std::ptr::from_ref(&*data).addr();

    let hp = HazardPointer::new(&mut domain);

    let guard = hp.protect(&mut domain, &shared).unwrap();
    assert_eq!(guard.as_ptr(), std::ptr::from_ref(&*data).addr());
    assert_eq!(data.value.get(), 0);

    data.value.set(42);
    assert_eq!(data.value.get(), 42);

    guard.release(&mut domain);
    domain.retire_with_deleter(shared, Box::new(move |_| drop(data)));
    domain.reclaim();

    assert_eq!(counter.load(Ordering::SeqCst), 1);
}

#[test]
fn teardown_deletes_protected_objects_in_order() {
    let deleted = Arc::new(Mutex::new(Vec::new()));
    let mut domain: HazardDomain<Deleter> = HazardDomain::with_threshold(1000);

    let hp = HazardPointer::new(&mut domain);
    let _guard = hp.protect_ptr(&mut domain, 16).unwrap();
    for ptr in [8, 16, 24, 32] {
        let log = deleted.clone();
        domain.retire_with_deleter(ptr, Box::new(move |at| log.lock().unwrap().push(at)));
    }

    domain.reclaim();
    assert_eq!(domain.retired_count(), 1);
    domain.teardown();

    assert_eq!(*deleted.lock().unwrap(), vec![8, 32, 24, 16]);
    assert_eq!(domain.retired_count(), 0);
}
