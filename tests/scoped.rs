use std::cell::RefCell;
use std::rc::Rc;

use allocators::{Allocator, AllocatorError, Block, BlockOwner, HeapAllocator, Scoped, HEAP_BASE};

#[test]
fn scope_scope() {
    let mut alloc = Scoped::new(64).unwrap();
    let _ = alloc.allocate(0).unwrap();
    alloc
        .scope(|inner| {
            let _ = inner.allocate(32);
            inner
                .scope(|bottom| {
                    let _ = bottom.allocate(23);
                })
                .unwrap();
        })
        .unwrap();
}

#[test]
fn out_of_memory() {
    // allocate more memory than the allocator has.
    let mut alloc = Scoped::new(0).unwrap();
    let (err, _) = alloc.allocate(1i32).err().unwrap();
    assert_eq!(err, AllocatorError::OutOfMemory);
}

#[test]
fn placement_in() {
    let mut alloc = Scoped::new(8_000_000).unwrap();
    // the value is built in its own storage, never on the stack.
    let place = alloc.make_place::<[u8; 8_000_000]>().unwrap();
    let big: Box<[u8; 8_000_000]> = vec![0u8; 8_000_000].into_boxed_slice().try_into().unwrap();
    let _big = place.fill(big);
    assert_eq!(_big.block().size(), 8_000_000);
    assert_eq!(_big.get()[7_999_999], 0);
}

#[test]
fn owning() {
    let mut alloc = Scoped::new(64).unwrap();

    let val = alloc.allocate(1i32).unwrap();
    assert!(alloc.owns(&val));

    alloc
        .scope(|inner| {
            let in_val = inner.allocate(2i32).unwrap();
            assert!(inner.owns(&in_val));
            // a scope shares its parent's extent.
            assert!(inner.owns(&val));
        })
        .unwrap();
}

#[test]
fn new_root_starts_at_heap_base() {
    let mut alloc = Scoped::new(64).unwrap();
    assert!(alloc.is_root());
    assert!(!alloc.is_scoped());
    let b = alloc.allocate_raw(64, 1).unwrap();
    assert_eq!(b, Block::new(HEAP_BASE, 64, 1));
}

#[test]
fn new_fails_when_the_address_space_is_exhausted() {
    assert_eq!(Scoped::new(usize::MAX).err(), Some(AllocatorError::OutOfMemory));
}

#[test]
fn capacity_is_never_exceeded() {
    let mut alloc = Scoped::new(64).unwrap();
    let mut used = 0usize;
    for _ in 0..4 {
        let b = alloc.allocate_raw(16, 8).unwrap();
        assert_eq!(b.ptr(), HEAP_BASE + used);
        used += 16;
    }
    assert_eq!(alloc.allocate_raw(1, 1), Err(AllocatorError::OutOfMemory));
    // a zero-size request at the very end still fits.
    let z = alloc.allocate_raw(0, 1).unwrap();
    assert_eq!(z.ptr(), HEAP_BASE + 64);
    assert!(z.is_empty());
}

#[test]
fn failed_allocation_leaves_cursor_unchanged() {
    let mut alloc = Scoped::new(32).unwrap();
    alloc.allocate_raw(10, 1).unwrap();
    assert_eq!(alloc.allocate_raw(30, 1), Err(AllocatorError::OutOfMemory));
    let b = alloc.allocate_raw(22, 1).unwrap();
    assert_eq!(b.ptr(), HEAP_BASE + 10);
}

#[test]
fn blocks_are_aligned() {
    let mut alloc = Scoped::new(256).unwrap();
    alloc.allocate_raw(3, 1).unwrap();
    let b = alloc.allocate_raw(8, 16).unwrap();
    assert_eq!(b.ptr() % 16, 0);
    assert_eq!(b.ptr(), HEAP_BASE + 16);
    assert_eq!(b.align(), 16);
    let c = alloc.allocate_raw(1, 64).unwrap();
    assert_eq!(c.ptr() % 64, 0);
    assert_eq!(c.ptr(), HEAP_BASE + 64);
}

#[test]
fn padding_counts_against_capacity() {
    let mut alloc = Scoped::new(16).unwrap();
    alloc.allocate_raw(1, 1).unwrap();
    // 7 bytes of padding and 9 bytes do not fit in the 15 left.
    assert_eq!(alloc.allocate_raw(9, 8), Err(AllocatorError::OutOfMemory));
    assert!(alloc.allocate_raw(8, 8).is_ok());
}

#[test]
fn scope_reclaims_everything() {
    let mut alloc = Scoped::new(64).unwrap();
    let k = alloc
        .scope(|inner| {
            let mut k = 0;
            while inner.allocate(7u8).is_ok() {
                k += 1;
            }
            k
        })
        .unwrap();
    assert_eq!(k, 64);
    let b = alloc.allocate_raw(64, 1).unwrap();
    assert_eq!(b.ptr(), HEAP_BASE);
}

#[test]
fn scope_returns_what_the_closure_returns() {
    let mut alloc = Scoped::new(16).unwrap();
    assert_eq!(alloc.scope(|_| 41 + 1), Ok(42));
}

#[test]
fn lifo_free_reuses_last_block() {
    let mut alloc = Scoped::new(64).unwrap();
    let a = alloc.allocate_raw(8, 8).unwrap();
    let b = alloc.allocate_raw(16, 8).unwrap();
    assert_eq!(b.ptr(), a.ptr() + 8);
    // freeing a block that is not the last changes nothing.
    alloc.deallocate_raw(a);
    let c = alloc.allocate_raw(8, 8).unwrap();
    assert_eq!(c.ptr(), b.ptr() + 16);
    alloc.deallocate_raw(c);
    alloc.deallocate_raw(b);
    let d = alloc.allocate_raw(16, 8).unwrap();
    assert_eq!(d.ptr(), b.ptr());
}

#[test]
fn unrelated_extent_does_not_own() {
    let mut heap = HeapAllocator::new();
    let mut a = Scoped::new_from(&mut heap, 64).unwrap();
    let mut b = Scoped::new_from(&mut heap, 64).unwrap();
    let x = a.allocate(1u64).unwrap();
    let y = b.allocate(2u64).unwrap();
    assert!(a.owns(&x));
    assert!(!b.owns(&x));
    assert!(b.owns(&y));
    assert_eq!(*y.get(), 2);
    assert!(!a.owns_block(&Block::new(HEAP_BASE + 200, 1, 1)));
}

#[test]
fn nested_root_over_scoped() {
    let mut outer = Scoped::new(64).unwrap();
    outer.allocate_raw(8, 1).unwrap();
    let mut inner = Scoped::new_from(&mut outer, 16).unwrap();
    let v = inner.allocate(5u32).unwrap();
    assert!(outer.owns(&v));
    assert_eq!(outer.allocate_raw(40, 1).unwrap().ptr(), HEAP_BASE + 24);
    assert_eq!(Scoped::new_from(&mut outer, 1).err(), Some(AllocatorError::OutOfMemory));
}

#[test]
fn release_returns_extent_to_parent() {
    let mut heap = HeapAllocator::new();
    let root = Scoped::new_from(&mut heap, 128).unwrap();
    root.release(&mut heap);
    let again = Scoped::new_from(&mut heap, 8).unwrap();
    let mut again = again;
    assert_eq!(again.allocate_raw(8, 1).unwrap().ptr(), HEAP_BASE);
}

#[test]
fn values_dropped_before_extent_released() {
    struct Bomb(i32, Rc<RefCell<Vec<String>>>);
    impl Drop for Bomb {
        fn drop(&mut self) {
            self.1.borrow_mut().push(format!("value {}", self.0));
        }
    }
    let log = Rc::new(RefCell::new(Vec::new()));
    let mut heap = HeapAllocator::new();
    let mut root = Scoped::new_from(&mut heap, 64).unwrap();
    let outer = root.allocate(Bomb(1, log.clone())).ok().unwrap();
    root.scope(|inner| {
        let _bomb = inner.allocate(Bomb(2, log.clone())).ok().unwrap();
    })
    .unwrap();
    assert_eq!(*log.borrow(), vec!["value 2".to_string()]);
    drop(outer);
    root.release(&mut heap);
    log.borrow_mut().push("extent".to_string());
    assert_eq!(*log.borrow(), vec!["value 2".to_string(), "value 1".to_string(), "extent".to_string()]);
}

#[test]
fn handle_gives_access_to_value() {
    let mut alloc = Scoped::new(64).unwrap();
    let mut h = alloc.allocate(10u16).unwrap();
    *h.get_mut() += 5;
    assert_eq!(*h.get(), 15);
    assert_eq!(h.block().size(), 2);
    assert_eq!(h.into_inner(), 15);
}

#[test]
fn heap_hands_out_disjoint_blocks() {
    let mut heap = HeapAllocator::new();
    let a = heap.allocate_raw(10, 1).unwrap();
    let b = heap.allocate_raw(4, 8).unwrap();
    assert_eq!(a, Block::new(HEAP_BASE, 10, 1));
    assert_eq!(b, Block::new(HEAP_BASE + 16, 4, 8));
    assert_eq!(heap.allocate_raw(usize::MAX, 1), Err(AllocatorError::OutOfMemory));
    heap.deallocate_raw(b);
    assert_eq!(heap.allocate_raw(4, 1).unwrap().ptr(), HEAP_BASE + 16);
}

#[test]
fn handle_derefs_to_value() {
    let mut alloc = Scoped::new(64).unwrap();
    let mut h = alloc.allocate(vec![1, 2]).unwrap();
    h.push(3);
    assert_eq!(*h, vec![1, 2, 3]);
    assert_eq!(h.block().align(), std::mem::align_of::<Vec<i32>>());
}

#[test]
fn place_that_does_not_fit_fails() {
    let mut alloc = Scoped::new(8).unwrap();
    assert_eq!(alloc.make_place::<[u8; 9]>().err(), Some(AllocatorError::OutOfMemory));
    let place = alloc.make_place::<[u8; 8]>().unwrap();
    assert_eq!(place.block(), Block::new(HEAP_BASE, 8, 1));
    let h = place.fill(Box::new([1u8; 8]));
    assert!(alloc.owns(&h));
    assert_eq!(h[3], 1);
}

#[test]
fn scope_restores_cursor() {
    let mut alloc = Scoped::new(32).unwrap();
    alloc.allocate_raw(8, 1).unwrap();
    let first = alloc
        .scope(|inner| {
            let b = inner.allocate_raw(8, 1).unwrap();
            inner.allocate_raw(16, 1).unwrap();
            assert_eq!(inner.allocate_raw(1, 1), Err(AllocatorError::OutOfMemory));
            b.ptr()
        })
        .unwrap();
    assert_eq!(first, HEAP_BASE + 8);
    assert!(!alloc.is_scoped());
    assert_eq!(alloc.allocate_raw(8, 1).unwrap().ptr(), HEAP_BASE + 8);
}

#[test]
fn nested_scopes_each_restore() {
    let mut alloc = Scoped::new(64).unwrap();
    alloc
        .scope(|inner| {
            inner.allocate_raw(8, 1).unwrap();
            inner
                .scope(|bottom| {
                    assert!(!bottom.is_scoped());
                    assert_eq!(bottom.allocate_raw(8, 1).unwrap().ptr(), HEAP_BASE + 8);
                    bottom.allocate_raw(40, 1).unwrap();
                })
                .unwrap();
            assert_eq!(inner.allocate_raw(8, 1).unwrap().ptr(), HEAP_BASE + 8);
        })
        .unwrap();
    assert_eq!(alloc.allocate_raw(64, 1).unwrap().ptr(), HEAP_BASE);
}

#[test]
fn scope_frees_its_last_block() {
    let mut alloc = Scoped::new(32).unwrap();
    alloc
        .scope(|inner| {
            let a = inner.allocate_raw(8, 1).unwrap();
            let b = inner.allocate_raw(8, 1).unwrap();
            inner.deallocate_raw(a);
            assert_eq!(inner.allocate_raw(4, 1).unwrap().ptr(), HEAP_BASE + 16);
            inner.deallocate_raw(Block::new(HEAP_BASE + 16, 4, 1));
            inner.deallocate_raw(b);
            assert_eq!(inner.allocate_raw(8, 1).unwrap().ptr(), b.ptr());
        })
        .unwrap();
}

#[test]
fn scope_places_values() {
    let mut alloc = Scoped::new(16).unwrap();
    alloc
        .scope(|inner| {
            let place = inner.make_place::<[u8; 16]>().unwrap();
            let h = place.fill(Box::new([2u8; 16]));
            assert!(inner.owns_block(&h.block()));
            assert_eq!(inner.make_place::<u8>().err(), Some(AllocatorError::OutOfMemory));
            match inner.allocate(9u8) {
                Err((AllocatorError::OutOfMemory, v)) => assert_eq!(v, 9),
                _ => panic!("an allocation past the extent succeeded"),
            }
        })
        .unwrap();
}
