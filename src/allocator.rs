//! The allocator capability, the ownership query, and handles to values
//! placed in allocator memory.

use vstd::prelude::*;
use vstd::arithmetic::power2::is_pow2;
use vstd::layout::{align_of, layout_for_type_is_valid, size_of};

use crate::block::{AllocatorError, Block};

verus! {

/// What every allocator offers: raw allocation and release of blocks, and
/// typed allocation built on top of them.
pub trait Allocator: Sized {
    /// The allocator's internal consistency.
    spec fn wf(&self) -> bool;

    /// `allocate_raw(size, align)` from state `self` may end in state `next`
    /// with result `r`.
    spec fn allocates(&self, size: usize, align: usize, next: Self, r: Result<Block, AllocatorError>) -> bool;

    /// `deallocate_raw(blk)` from state `self` may end in state `next`.
    spec fn deallocates(&self, blk: Block, next: Self) -> bool;

    /// Requests `size` bytes aligned to `align`. On failure nothing changes.
    fn allocate_raw(&mut self, size: usize, align: usize) -> (r: Result<Block, AllocatorError>)
        requires
            old(self).wf(),
            is_pow2(align as int),
        ensures
            final(self).wf(),
            old(self).allocates(size, align, *final(self), r),
            r is Err ==> *final(self) == *old(self),
            r matches Ok(b) ==> b.size == size && b.align == align && b.ptr % align == 0
                && b.end() <= usize::MAX,
    ;

    /// Gives a block back to the allocator it came from.
    fn deallocate_raw(&mut self, blk: Block)
        requires
            old(self).wf(),
        ensures
            final(self).wf(),
            old(self).deallocates(blk, *final(self)),
    ;

    /// Places `val` in a block sized and aligned for `T`. On failure the value
    /// comes back with the error and nothing changes.
    fn allocate<T>(&mut self, val: T) -> (r: Result<Allocated<T>, (AllocatorError, T)>)
        requires
            old(self).wf(),
        ensures
            final(self).wf(),
            match r {
                Ok(h) => old(self).allocates(
                    size_of::<T>() as usize,
                    align_of::<T>() as usize,
                    *final(self),
                    Ok(h.block()),
                ) && h@ == val,
                Err((e, v)) => old(self).allocates(
                    size_of::<T>() as usize,
                    align_of::<T>() as usize,
                    *final(self),
                    Err(e),
                ) && v == val && *final(self) == *old(self),
            },
    {
        layout_for_type_is_valid::<T>();
        match self.allocate_raw(core::mem::size_of::<T>(), core::mem::align_of::<T>()) {
            Ok(block) => Ok(Allocated { value: Box::new(val), block }),
            Err(e) => Err((e, val)),
        }
    }

    /// Reserves a block sized and aligned for `T`, into which a value built
    /// elsewhere can then be placed.
    fn make_place<T>(&mut self) -> (r: Result<Place<T>, AllocatorError>)
        requires
            old(self).wf(),
        ensures
            final(self).wf(),
            match r {
                Ok(p) => old(self).allocates(
                    size_of::<T>() as usize,
                    align_of::<T>() as usize,
                    *final(self),
                    Ok(p.block()),
                ),
                Err(e) => old(self).allocates(
                    size_of::<T>() as usize,
                    align_of::<T>() as usize,
                    *final(self),
                    Err(e),
                ),
            },
    {
        layout_for_type_is_valid::<T>();
        match self.allocate_raw(core::mem::size_of::<T>(), core::mem::align_of::<T>()) {
            Ok(block) => Ok(Place { block, marker: core::marker::PhantomData }),
            Err(e) => Err(e),
        }
    }
}

/// An allocator that can tell whether a block lies in its extent.
pub trait BlockOwner: Sized {
    /// Whether `blk` starts inside this allocator's extent.
    spec fn owns_spec(&self, blk: Block) -> bool;

    fn owns_block(&self, blk: &Block) -> (r: bool)
        ensures
            r == self.owns_spec(*blk),
    ;

    /// Whether the handle's block starts inside this allocator's extent.
    fn owns<T>(&self, h: &Allocated<T>) -> (r: bool)
        ensures
            r == self.owns_spec(h.block()),
    {
        let b = h.block();
        self.owns_block(&b)
    }
}

/// A value tied to a block of some allocator. The value lives in the
/// handle's own box, and dropping the handle drops it; the block itself is
/// reclaimed by its allocator. The handle borrows nothing from the
/// allocator, so it may outlive the scope or root whose block it names: the
/// block descriptor then goes stale, while the value stays valid.
pub struct Allocated<T> {
    value: Box<T>,
    block: Block,
}

impl<T> View for Allocated<T> {
    type V = T;

    closed spec fn view(&self) -> T {
        *self.value
    }
}

impl<T> Allocated<T> {
    pub closed spec fn spec_block(&self) -> Block {
        self.block
    }

    /// The block the value was placed in.
    #[verifier::when_used_as_spec(spec_block)]
    pub fn block(&self) -> (b: Block)
        ensures
            b == self.spec_block(),
    {
        self.block
    }

    /// Shared access to the value.
    pub fn get(&self) -> (r: &T)
        ensures
            *r == self@,
    {
        &self.value
    }

    /// Exclusive access to the value.
    pub fn get_mut(&mut self) -> (r: &mut T)
        ensures
            *r == old(self)@,
            final(self)@ == *final(r),
            final(self).block() == old(self).block(),
    {
        &mut self.value
    }

    /// Takes the value out, giving up its place.
    pub fn into_inner(self) -> (r: T)
        ensures
            r == self@,
    {
        *self.value
    }
}

impl<T> core::ops::Deref for Allocated<T> {
    type Target = T;

    fn deref(&self) -> (r: &T)
        ensures
            *r == self@,
    {
        &self.value
    }
}

impl<T> core::ops::DerefMut for Allocated<T> {
    fn deref_mut(&mut self) -> (r: &mut T)
        ensures
            *r == old(self)@,
            final(self)@ == *final(r),
            final(self).block() == old(self).block(),
    {
        &mut self.value
    }
}

/// A block reserved for a value of type `T` that is not there yet.
pub struct Place<T> {
    block: Block,
    marker: core::marker::PhantomData<T>,
}

impl<T> Place<T> {
    pub closed spec fn spec_block(&self) -> Block {
        self.block
    }

    /// The reserved block.
    #[verifier::when_used_as_spec(spec_block)]
    pub fn block(&self) -> (b: Block)
        ensures
            b == self.spec_block(),
    {
        self.block
    }

    /// Ties a value built in its own boxed storage to the reserved block, so
    /// that a large value never travels through the stack. The value stays
    /// in its box; the block records the bytes the allocator set aside.
    pub fn fill(self, value: Box<T>) -> (h: Allocated<T>)
        ensures
            h@ == *value,
            h.block() == self.block(),
    {
        Allocated { value, block: self.block }
    }
}

} // verus!
