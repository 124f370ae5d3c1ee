//! The leaf allocator: a model of the process heap as the address range it
//! hands blocks out of. It reserves addresses only; no memory is obtained.

use vstd::prelude::*;

use crate::allocator::Allocator;
use crate::block::{align_forward, align_up, AllocatorError, Block};

verus! {

/// The first address the heap hands out; no block ever sits at address zero.
pub const HEAP_BASE: usize = 4096;

/// A model of the process heap: hands out address ranges from
/// `[HEAP_BASE, usize::MAX]`, lowest addresses first, so that blocks it gives
/// out never overlap. It allocates no memory. The most recent block, given
/// back, is handed out again. Each instance is an address space of its own.
pub struct HeapAllocator {
    next: usize,
}

impl HeapAllocator {
    /// The lowest address not yet handed out.
    pub closed spec fn next_free(&self) -> int {
        self.next as int
    }

    /// A heap that has handed out nothing.
    pub fn new() -> (h: HeapAllocator)
        ensures
            h.next_free() == HEAP_BASE,
            h.wf(),
    {
        HeapAllocator { next: HEAP_BASE }
    }
}

impl Allocator for HeapAllocator {
    open spec fn wf(&self) -> bool {
        HEAP_BASE <= self.next_free() <= usize::MAX
    }

    open spec fn allocates(&self, size: usize, align: usize, next: Self, r: Result<Block, AllocatorError>) -> bool {
        let a = align_up(self.next_free(), align as int);
        if a + size <= usize::MAX {
            r == Ok::<Block, AllocatorError>(Block { ptr: a as usize, size, align }) && next.next_free() == a + size
        } else {
            r == Err::<Block, AllocatorError>(AllocatorError::OutOfMemory) && next == *self
        }
    }

    open spec fn deallocates(&self, blk: Block, next: Self) -> bool {
        if HEAP_BASE <= blk.ptr && blk.end() == self.next_free() {
            next.next_free() == blk.ptr
        } else {
            next == *self
        }
    }

    fn allocate_raw(&mut self, size: usize, align: usize) -> (r: Result<Block, AllocatorError>) {
        proof {
            crate::block::lemma_pow2_positive(align as int);
            crate::block::lemma_align_up(self.next as int, align as int);
        }
        match align_forward(self.next, align, usize::MAX) {
            Some(a) => {
                if size <= usize::MAX - a {
                    self.next = a + size;
                    Ok(Block { ptr: a, size, align })
                } else {
                    Err(AllocatorError::OutOfMemory)
                }
            },
            None => Err(AllocatorError::OutOfMemory),
        }
    }

    fn deallocate_raw(&mut self, blk: Block) {
        if HEAP_BASE <= blk.ptr && blk.ptr <= self.next && self.next - blk.ptr == blk.size {
            self.next = blk.ptr;
        }
    }
}

} // verus!
