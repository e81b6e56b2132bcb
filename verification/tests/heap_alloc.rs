//! Allocator behavior on a concrete heap.
use os_practice::heap::{align_up, LinkedListAlloc, ListNode, HEAP_SIZE, HEAP_START};

const BASE: u64 = 0x4444_4444_0000;

fn fresh_heap() -> LinkedListAlloc {
    let mut a = LinkedListAlloc::new();
    a.init(HEAP_START, HEAP_SIZE);
    a
}

#[test]
fn align_up_values() {
    assert_eq!(align_up(13, 8), 16);
    assert_eq!(align_up(16, 8), 16);
    assert_eq!(align_up(0, 1), 0);
    assert_eq!(align_up(1, 4096), 4096);
}

#[test]
fn list_node_addresses() {
    let n = ListNode::new(0x1000, 64);
    assert_eq!(n.start_addr(), 0x1000);
    assert_eq!(n.end_addr(), 0x1040);
}

#[test]
fn size_align_normalizes_requests() {
    assert_eq!(LinkedListAlloc::size_align(5, 1), (16, 8));
    assert_eq!(LinkedListAlloc::size_align(100, 8), (104, 8));
    assert_eq!(LinkedListAlloc::size_align(8, 4096), (4096, 4096));
    assert_eq!(LinkedListAlloc::size_align(0, 2), (16, 8));
}

#[test]
fn first_fit_scenario_three_allocations() {
    // Heap of 102,400 bytes at the fixed base; allocate 8, 16, 4096 bytes.
    let mut a = fresh_heap();
    assert_eq!(HEAP_SIZE, 102_400);
    let r1 = a.allocate(8, 8).unwrap();
    let r2 = a.allocate(16, 8).unwrap();
    let r3 = a.allocate(4096, 8).unwrap();
    assert_eq!(r1, BASE);
    assert_eq!(r2, BASE + 0x10);
    assert_eq!(r3, BASE + 0x20);
    // Distinct and non-overlapping: each sits before the next one starts.
    assert!(r1 + 16 <= r2);
    assert!(r2 + 16 <= r3);
}

#[test]
fn returned_addresses_satisfy_alignment() {
    let mut a = fresh_heap();
    let r1 = a.allocate(5, 64).unwrap();
    assert_eq!(r1 % 64, 0);
    let r2 = a.allocate(3, 1).unwrap();
    assert_eq!(r2 % 8, 0);
    let r3 = a.allocate(100, 4096).unwrap();
    assert_eq!(r3 % 4096, 0);
}

#[test]
fn freed_region_is_reused_lifo() {
    let mut a = fresh_heap();
    let r1 = a.allocate(32, 8).unwrap();
    let r2 = a.allocate(32, 8).unwrap();
    assert_ne!(r1, r2);
    a.deallocate(r1, 32, 8);
    // A request of the same size is served from the just-freed region.
    let r3 = a.allocate(32, 8).unwrap();
    assert_eq!(r3, r1);
}

#[test]
fn smaller_request_reuses_freed_region() {
    let mut a = fresh_heap();
    let r1 = a.allocate(64, 8).unwrap();
    let _r2 = a.allocate(64, 8).unwrap();
    a.deallocate(r1, 64, 8);
    // 32 of the 64 freed bytes suffice; the overhang can host a node.
    let r3 = a.allocate(32, 8).unwrap();
    assert_eq!(r3, r1);
}

#[test]
fn exhaustion_returns_none() {
    let mut a = fresh_heap();
    // More than the whole heap can never fit.
    assert_eq!(a.allocate(HEAP_SIZE + 1, 8), None);
    // The whole heap fits exactly once.
    let r = a.allocate(HEAP_SIZE, 8).unwrap();
    assert_eq!(r, BASE);
    assert_eq!(a.allocate(16, 8), None);
    // Freeing brings the space back.
    a.deallocate(r, HEAP_SIZE, 8);
    assert_eq!(a.allocate(16, 8), Some(BASE));
}

#[test]
fn exhaustion_by_many_allocations() {
    let mut a = fresh_heap();
    // 102,400 / 1024 = 100 blocks fill the heap exactly.
    let mut got = Vec::new();
    for _ in 0..100 {
        got.push(a.allocate(1024, 8).expect("should fit"));
    }
    assert_eq!(a.allocate(1024, 8), None);
    // All returned blocks are within bounds and pairwise disjoint.
    got.sort();
    for w in got.windows(2) {
        assert!(w[0] + 1024 <= w[1]);
    }
    assert!(got[0] >= BASE);
    assert!(got[99] + 1024 <= BASE + HEAP_SIZE);
}
