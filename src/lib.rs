//! Composable allocators over abstract address ranges, centred on a scoped
//! bump allocator whose nested scopes are reclaimed in constant time.
//!
//! Addresses are plain `usize` values: an allocator here hands out and takes
//! back byte ranges of an address space, and the values placed in them are
//! owned by their `Allocated` handles.

pub mod allocator;
pub mod block;
pub mod heap;
pub mod scoped;

pub use allocator::{Allocated, Allocator, BlockOwner, Place};
pub use block::{AllocatorError, Block};
pub use heap::{HeapAllocator, HEAP_BASE};
pub use scoped::{Scope, Scoped, ScopedView};
