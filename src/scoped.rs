//! A scoped linear allocator: a bump allocator over one extent whose nested
//! scopes suspend their parent and are reclaimed at once when they end.

use vstd::prelude::*;
use vstd::arithmetic::power2::is_pow2;
use vstd::layout::{align_of, layout_for_type_is_valid, size_of};

use crate::allocator::{Allocated, Allocator, BlockOwner, Place};
use crate::block::{align_forward, align_up, lemma_align_up, lemma_pow2_positive, AllocatorError, Block};
use crate::heap::{HeapAllocator, HEAP_BASE};

verus! {

/// The alignment a root asks its parent for: that of `usize`.
pub open spec fn extent_align() -> usize {
    align_of::<usize>() as usize
}

/// The abstract state of a scoped allocator.
pub struct ScopedView {
    /// First address of the extent.
    pub start: int,
    /// One past the last address of the extent.
    pub end: int,
    /// The bump cursor; while suspended, the position allocation resumes from.
    pub current: int,
    /// Whether a scope of this allocator is active, so that it may not
    /// allocate.
    pub suspended: bool,
    /// Whether this allocator holds the extent on behalf of its parent.
    pub root: bool,
}

impl ScopedView {
    pub open spec fn wf(self) -> bool {
        0 <= self.start <= self.current <= self.end <= usize::MAX
    }

    /// A fresh root over `size` bytes at `start`.
    pub open spec fn root_over(start: int, size: int) -> ScopedView {
        ScopedView { start, end: start + size, current: start, suspended: false, root: true }
    }

    /// The address the next block aligned to `align` would start at.
    pub open spec fn aligned(self, align: usize) -> int {
        align_up(self.current, align as int)
    }

    /// Whether `size` bytes aligned to `align` can be handed out now.
    pub open spec fn fits(self, size: usize, align: usize) -> bool {
        !self.suspended && self.aligned(align) + size <= self.end
    }

    /// The block `allocate_raw(size, align)` hands out when it fits.
    pub open spec fn next_block(self, size: usize, align: usize) -> Block {
        Block { ptr: self.aligned(align) as usize, size, align }
    }

    /// The state after `allocate_raw(size, align)`.
    pub open spec fn after_alloc(self, size: usize, align: usize) -> ScopedView {
        if self.fits(size, align) {
            ScopedView { current: self.aligned(align) + size, ..self }
        } else {
            self
        }
    }

    /// Whether freeing `blk` moves the cursor back: the block must end
    /// exactly at the cursor.
    pub open spec fn is_last(self, blk: Block) -> bool {
        !self.suspended && self.start <= blk.ptr && blk.end() == self.current
    }

    /// The state after `deallocate_raw(blk)`.
    pub open spec fn after_free(self, blk: Block) -> ScopedView {
        if self.is_last(blk) {
            ScopedView { current: blk.ptr as int, ..self }
        } else {
            self
        }
    }

    /// `allocate_raw(size, align)` from this state may end in state `next`
    /// with result `r`: a suspended allocator refuses, whatever is asked;
    /// otherwise the block at the aligned cursor when it fits, and
    /// `OutOfMemory` with nothing changed when it does not.
    pub open spec fn allocates(self, size: usize, align: usize, next: ScopedView, r: Result<Block, AllocatorError>) -> bool {
        &&& next == self.after_alloc(size, align)
        &&& if self.suspended {
            r matches Err(AllocatorError::AllocatorSpecific(_))
        } else if self.fits(size, align) {
            r == Ok::<Block, AllocatorError>(self.next_block(size, align))
        } else {
            r == Err::<Block, AllocatorError>(AllocatorError::OutOfMemory)
        }
    }

    /// Whether `blk` starts inside the extent.
    pub open spec fn owns(self, blk: Block) -> bool {
        self.start <= blk.ptr <= self.end
    }

    /// The allocator a new scope works with: same extent, cursor where the
    /// parent stopped, never a root.
    pub open spec fn child(self) -> ScopedView {
        ScopedView { suspended: false, root: false, ..self }
    }

    /// The parent while one of its scopes is active.
    pub open spec fn entered(self) -> ScopedView {
        ScopedView { suspended: true, ..self }
    }

    /// The parent once its scope has ended.
    pub open spec fn resumed(self) -> ScopedView {
        ScopedView { suspended: false, ..self }
    }

    /// The block a root gives back to its parent.
    pub open spec fn extent(self) -> Block {
        Block { ptr: self.start as usize, size: (self.end - self.start) as usize, align: extent_align() }
    }
}

/// The state after `allocate_raw` is called with each `(size, align)` of
/// `reqs` in turn.
pub open spec fn run(v: ScopedView, reqs: Seq<(usize, usize)>) -> ScopedView
    decreases reqs.len(),
{
    if reqs.len() == 0 {
        v
    } else {
        let (size, align) = reqs.last();
        run(v, reqs.drop_last()).after_alloc(size, align)
    }
}

/// The bytes those calls consume, alignment padding included.
pub open spec fn consumed(v: ScopedView, reqs: Seq<(usize, usize)>) -> int
    decreases reqs.len(),
{
    if reqs.len() == 0 {
        0
    } else {
        let (size, align) = reqs.last();
        let w = run(v, reqs.drop_last());
        consumed(v, reqs.drop_last()) + if w.fits(size, align) {
            w.aligned(align) - w.current + size
        } else {
            0
        }
    }
}

/// Every alignment in `reqs` is a power of two.
pub open spec fn valid_requests(reqs: Seq<(usize, usize)>) -> bool {
    forall|i: int| 0 <= i < reqs.len() ==> is_pow2(#[trigger] reqs[i].1 as int)
}

/// Capacity: whatever sequence of allocations runs through an extent, the
/// bytes they consume, padding included, are exactly how far the cursor
/// moved, and never more than the extent held when they began.
pub proof fn lemma_capacity(v: ScopedView, reqs: Seq<(usize, usize)>)
    requires
        v.wf(),
        valid_requests(reqs),
    ensures
        run(v, reqs).wf(),
        run(v, reqs).start == v.start,
        run(v, reqs).end == v.end,
        run(v, reqs).current == v.current + consumed(v, reqs),
        0 <= consumed(v, reqs) <= v.end - v.current,
    decreases reqs.len(),
{
    if reqs.len() > 0 {
        let (size, align) = reqs.last();
        let rest = reqs.drop_last();
        assert(valid_requests(rest)) by {
            assert forall|i: int| 0 <= i < rest.len() implies is_pow2(#[trigger] rest[i].1 as int) by {
                assert(rest[i] == reqs[i]);
            }
        }
        lemma_capacity(v, rest);
        assert(is_pow2(reqs[reqs.len() - 1].1 as int));
        lemma_pow2_positive(align as int);
        lemma_align_up(run(v, rest).current, align as int);
    }
}

/// Scope reclamation: however many allocations a scope made, once it ends
/// its parent is exactly as before; so a parent that had used nothing can
/// then hand out its whole extent in one block.
pub proof fn lemma_scope_reclaims(v: ScopedView, reqs: Seq<(usize, usize)>)
    requires
        v.wf(),
        !v.suspended,
        valid_requests(reqs),
    ensures
        run(v.child(), reqs).wf(),
        v.entered().resumed() == v,
        v.current == v.start ==> v.entered().resumed().fits((v.end - v.start) as usize, 1),
        v.current == v.start ==> v.entered().resumed().next_block((v.end - v.start) as usize, 1)
            == (Block { ptr: v.start as usize, size: (v.end - v.start) as usize, align: 1 }),
{
    lemma_capacity(v.child(), reqs);
    lemma_align_up(v.current, 1);
}

/// Suspension: while a scope is open its parent refuses every allocation,
/// whatever size and alignment are asked, with `AllocatorSpecific`, and stays
/// as it is.
pub proof fn lemma_suspended_refuses(
    v: ScopedView,
    size: usize,
    align: usize,
    next: ScopedView,
    r: Result<Block, AllocatorError>,
)
    requires
        v.wf(),
        !v.suspended,
        v.entered().allocates(size, align, next, r),
    ensures
        v.entered().suspended,
        !v.entered().fits(size, align),
        next == v.entered(),
        next.current == v.current,
        r matches Err(AllocatorError::AllocatorSpecific(_)),
{
}

/// Last in, first out: allocate A, then a non-empty B; freeing A changes
/// nothing, freeing B returns the cursor to where B began, and the next
/// allocation of B's size and alignment gets B's address again.
pub proof fn lemma_lifo_free(
    v: ScopedView,
    a_size: usize,
    a_align: usize,
    b_size: usize,
    b_align: usize,
)
    requires
        v.wf(),
        is_pow2(a_align as int),
        is_pow2(b_align as int),
        v.fits(a_size, a_align),
        v.after_alloc(a_size, a_align).fits(b_size, b_align),
        b_size > 0,
    ensures
        ({
            let v1 = v.after_alloc(a_size, a_align);
            let v2 = v1.after_alloc(b_size, b_align);
            let a = v.next_block(a_size, a_align);
            let b = v1.next_block(b_size, b_align);
            &&& v2.after_free(a) == v2
            &&& v2.after_free(b).current == b.ptr
            &&& v2.after_free(b).fits(b_size, b_align)
            &&& v2.after_free(b).next_block(b_size, b_align) == b
        }),
{
    let v1 = v.after_alloc(a_size, a_align);
    let b = v1.next_block(b_size, b_align);
    lemma_pow2_positive(a_align as int);
    lemma_pow2_positive(b_align as int);
    lemma_align_up(v.current, a_align as int);
    lemma_align_up(v1.current, b_align as int);
    let w = v1.after_alloc(b_size, b_align).after_free(b);
    assert(w.current == b.ptr);
    assert(b.ptr as int % b_align as int == 0);
    assert(align_up(w.current, b_align as int) == w.current);
}

/// Ownership: a block handed out by an allocator is owned by it and by every
/// scope of it, and by no allocator whose extent lies wholly before or after
/// its own.
pub proof fn lemma_owns_allocated(v: ScopedView, w: ScopedView, size: usize, align: usize)
    requires
        v.wf(),
        is_pow2(align as int),
        v.fits(size, align),
        w.end < v.start || v.end < w.start,
    ensures
        v.owns(v.next_block(size, align)),
        v.child().owns(v.next_block(size, align)),
        v.child().child().owns(v.next_block(size, align)),
        v.entered().owns(v.next_block(size, align)),
        !w.owns(v.next_block(size, align)),
{
    lemma_pow2_positive(align as int);
    lemma_align_up(v.current, align as int);
}

/// A scoped linear allocator: hands out blocks of one extent by moving a
/// cursor forward, and reclaims everything a scope allocated when the scope
/// ends.
pub struct Scoped {
    start: usize,
    end: usize,
    current: usize,
    suspended: bool,
    root: bool,
}

impl View for Scoped {
    type V = ScopedView;

    closed spec fn view(&self) -> ScopedView {
        ScopedView {
            start: self.start as int,
            end: self.end as int,
            current: self.current as int,
            suspended: self.suspended,
            root: self.root,
        }
    }
}

impl Scoped {
    /// Creates a root backed by `size` bytes of a fresh `HeapAllocator`,
    /// which is dropped at once: every root made this way sits at the same
    /// addresses, so `owns` cannot tell two of them apart, and none can be
    /// released. Roots that must be told apart, or given back, come from one
    /// shared heap through `new_from`.
    pub fn new(size: usize) -> (r: Result<Scoped, AllocatorError>)
        ensures
            r is Ok <==> align_up(HEAP_BASE as int, extent_align() as int) + size <= usize::MAX,
            r matches Ok(s) ==> s.wf() && s@ == ScopedView::root_over(
                align_up(HEAP_BASE as int, extent_align() as int),
                size as int,
            ),
            r matches Err(e) ==> e == AllocatorError::OutOfMemory,
    {
        layout_for_type_is_valid::<usize>();
        let mut heap = HeapAllocator::new();
        let r = Scoped::new_from(&mut heap, size);
        proof {
            lemma_align_up(HEAP_BASE as int, extent_align() as int);
            if r is Ok {
                assert(r->Ok_0@.extent().ptr == r->Ok_0@.start);
            }
        }
        r
    }

    /// Creates a root backed by `size` bytes that `parent` hands out, aligned
    /// as a `usize`.
    pub fn new_from<A: Allocator>(parent: &mut A, size: usize) -> (r: Result<Scoped, AllocatorError>)
        requires
            old(parent).wf(),
        ensures
            final(parent).wf(),
            match r {
                Ok(s) => s.wf() && s@ == ScopedView::root_over(s@.start, size as int)
                    && old(parent).allocates(
                    size,
                    extent_align(),
                    *final(parent),
                    Ok(s@.extent()),
                ),
                Err(e) => old(parent).allocates(size, extent_align(), *final(parent), Err(e)),
            },
    {
        layout_for_type_is_valid::<usize>();
        match parent.allocate_raw(size, core::mem::align_of::<usize>()) {
            Ok(block) => {
                let s = Scoped {
                    start: block.ptr,
                    end: block.ptr + block.size,
                    current: block.ptr,
                    suspended: false,
                    root: true,
                };
                assert(s@.extent() == block);
                Ok(s)
            },
            Err(e) => Err(e),
        }
    }

    /// Ends a root: its extent, when not empty, goes back to `parent`, which
    /// must be the allocator it came from. An allocator that is not a root
    /// gives nothing back.
    pub fn release<A: Allocator>(self, parent: &mut A)
        requires
            old(parent).wf(),
        ensures
            final(parent).wf(),
            if self@.root && self@.start < self@.end {
                old(parent).deallocates(self@.extent(), *final(parent))
            } else {
                *final(parent) == *old(parent)
            },
    {
        if self.root && self.start < self.end {
            layout_for_type_is_valid::<usize>();
            parent.deallocate_raw(Block {
                ptr: self.start,
                size: self.end - self.start,
                align: core::mem::align_of::<usize>(),
            });
        }
    }

    /// Whether this allocator is suspended. Outside `scope` that happens only
    /// when a closure passed to `scope` panicked: the allocator then refuses
    /// all further work.
    pub fn is_scoped(&self) -> (r: bool)
        ensures
            r == self@.suspended,
    {
        self.suspended
    }

    /// Whether this allocator holds its extent on behalf of a parent.
    pub fn is_root(&self) -> (r: bool)
        ensures
            r == self@.root,
    {
        self.root
    }

    /// Runs `f` with a new scope of this allocator and returns what it
    /// returns. The scope works over the same extent from where this
    /// allocator stopped; while `f` runs this allocator is suspended, and
    /// afterwards it stands where it stood before, so everything the scope
    /// allocated is reclaimed at once. The scope handed to `f` cannot leave
    /// `f`. Fails without calling `f` when this allocator is suspended, which
    /// only a panic out of an earlier `f` can leave it.
    pub fn scope<F, U>(&mut self, f: F) -> (r: Result<U, AllocatorError>)
        where
            F: for<'s> FnOnce(&mut Scope<'s>) -> U,
        requires
            old(self).wf(),
            forall|c: &mut Scope| c@.wf() && c@ == old(self)@.child() ==> f.requires((c,)),
        ensures
            final(self).wf(),
            final(self)@ == old(self)@,
            r is Err <==> old(self)@.suspended,
            r matches Err(e) ==> e is AllocatorSpecific,
            r matches Ok(u) ==> exists|c: &mut Scope| c@ == old(self)@.child() && f.ensures((c,), u),
    {
        if self.suspended {
            return Err(AllocatorError::AllocatorSpecific("Called scope on already scoped allocator.".to_owned()));
        }
        let mut child = Scope {
            arena: Scoped {
                start: self.start,
                end: self.end,
                current: self.current,
                suspended: false,
                root: false,
            },
            brand: core::marker::PhantomData,
        };
        self.suspended = true;
        assert(child@.wf() && child@ == old(self)@.child());
        let u = f(&mut child);
        // The child's cursor is dropped with it; this allocator resumes
        // where it stopped.
        self.suspended = false;
        Ok(u)
    }
}

/// The allocator a scope works with, handed by `Scoped::scope` to its
/// closure. Each scope has its own lifetime `'s`, fixed by the call, so it
/// can neither be returned from the closure nor swapped with another scope;
/// it never holds the extent for a parent.
pub struct Scope<'s> {
    arena: Scoped,
    brand: core::marker::PhantomData<&'s mut &'s ()>,
}

impl<'s> View for Scope<'s> {
    type V = ScopedView;

    closed spec fn view(&self) -> ScopedView {
        self.arena@
    }
}

impl<'s> Scope<'s> {
    /// Whether one of this scope's own scopes is active.
    pub fn is_scoped(&self) -> (r: bool)
        ensures
            r == self@.suspended,
    {
        self.arena.is_scoped()
    }

    /// Requests `size` bytes aligned to `align`; see `Scoped`'s
    /// `allocate_raw`.
    pub fn allocate_raw(&mut self, size: usize, align: usize) -> (r: Result<Block, AllocatorError>)
        requires
            old(self)@.wf(),
            is_pow2(align as int),
        ensures
            final(self)@.wf(),
            old(self)@.allocates(size, align, final(self)@, r),
    {
        self.arena.allocate_raw(size, align)
    }

    /// Gives back a block; only the last one moves the cursor back.
    pub fn deallocate_raw(&mut self, blk: Block)
        requires
            old(self)@.wf(),
        ensures
            final(self)@.wf(),
            final(self)@ == old(self)@.after_free(blk),
    {
        self.arena.deallocate_raw(blk)
    }

    /// Places `val` in a block sized and aligned for `T`; see
    /// `Allocator::allocate`.
    pub fn allocate<T>(&mut self, val: T) -> (r: Result<Allocated<T>, (AllocatorError, T)>)
        requires
            old(self)@.wf(),
        ensures
            final(self)@.wf(),
            match r {
                Ok(h) => old(self)@.allocates(
                    size_of::<T>() as usize,
                    align_of::<T>() as usize,
                    final(self)@,
                    Ok(h.block()),
                ) && h@ == val,
                Err((e, v)) => old(self)@.allocates(
                    size_of::<T>() as usize,
                    align_of::<T>() as usize,
                    final(self)@,
                    Err(e),
                ) && v == val && final(self)@ == old(self)@,
            },
    {
        self.arena.allocate(val)
    }

    /// Reserves a block sized and aligned for `T`; see
    /// `Allocator::make_place`.
    pub fn make_place<T>(&mut self) -> (r: Result<Place<T>, AllocatorError>)
        requires
            old(self)@.wf(),
        ensures
            final(self)@.wf(),
            match r {
                Ok(p) => old(self)@.allocates(
                    size_of::<T>() as usize,
                    align_of::<T>() as usize,
                    final(self)@,
                    Ok(p.block()),
                ),
                Err(e) => old(self)@.allocates(
                    size_of::<T>() as usize,
                    align_of::<T>() as usize,
                    final(self)@,
                    Err(e),
                ),
            },
    {
        self.arena.make_place()
    }

    /// Whether `blk` starts inside the extent.
    pub fn owns_block(&self, blk: &Block) -> (r: bool)
        ensures
            r == self@.owns(*blk),
    {
        self.arena.owns_block(blk)
    }

    /// Whether the handle's block starts inside the extent.
    pub fn owns<T>(&self, h: &Allocated<T>) -> (r: bool)
        ensures
            r == self@.owns(h.block()),
    {
        self.arena.owns(h)
    }

    /// Runs `f` with a scope nested in this one; see `Scoped::scope`.
    pub fn scope<F, U>(&mut self, f: F) -> (r: Result<U, AllocatorError>)
        where
            F: for<'t> FnOnce(&mut Scope<'t>) -> U,
        requires
            old(self)@.wf(),
            forall|c: &mut Scope| c@.wf() && c@ == old(self)@.child() ==> f.requires((c,)),
        ensures
            final(self)@.wf(),
            final(self)@ == old(self)@,
            r is Err <==> old(self)@.suspended,
            r matches Err(e) ==> e is AllocatorSpecific,
            r matches Ok(u) ==> exists|c: &mut Scope| c@ == old(self)@.child() && f.ensures((c,), u),
    {
        self.arena.scope(f)
    }
}

impl Allocator for Scoped {
    open spec fn wf(&self) -> bool {
        self@.wf()
    }

    open spec fn allocates(&self, size: usize, align: usize, next: Self, r: Result<Block, AllocatorError>) -> bool {
        self@.allocates(size, align, next@, r)
    }

    open spec fn deallocates(&self, blk: Block, next: Self) -> bool {
        next@ == self@.after_free(blk)
    }

    fn allocate_raw(&mut self, size: usize, align: usize) -> (r: Result<Block, AllocatorError>) {
        proof {
            lemma_pow2_positive(align as int);
            lemma_align_up(self.current as int, align as int);
        }
        if self.suspended {
            return Err(AllocatorError::AllocatorSpecific("Called allocate on already scoped allocator.".to_owned()));
        }
        match align_forward(self.current, align, self.end) {
            Some(a) => {
                if size <= self.end - a {
                    self.current = a + size;
                    Ok(Block { ptr: a, size, align })
                } else {
                    Err(AllocatorError::OutOfMemory)
                }
            },
            None => Err(AllocatorError::OutOfMemory),
        }
    }

    fn deallocate_raw(&mut self, blk: Block) {
        if !self.suspended && self.start <= blk.ptr && blk.ptr <= self.current
            && self.current - blk.ptr == blk.size {
            self.current = blk.ptr;
        }
    }
}

impl BlockOwner for Scoped {
    open spec fn owns_spec(&self, blk: Block) -> bool {
        self@.owns(blk)
    }

    fn owns_block(&self, blk: &Block) -> (r: bool) {
        self.start <= blk.ptr && blk.ptr <= self.end
    }
}

} // verus!
