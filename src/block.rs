//! Block descriptors, allocation errors and alignment arithmetic.

use vstd::prelude::*;
use vstd::arithmetic::power2::is_pow2;

verus! {

/// The smallest multiple of `align` that is at least `p`.
pub open spec fn align_up(p: int, align: int) -> int {
    if p % align == 0 {
        p
    } else {
        p + (align - p % align)
    }
}

/// `align_up` is a multiple of `align`, at least `p` and less than `p + align`.
pub proof fn lemma_align_up(p: int, align: int)
    requires
        0 <= p,
        0 < align,
    ensures
        align_up(p, align) % align == 0,
        p <= align_up(p, align) < p + align,
{
    if p % align != 0 {
        assert((p + (align - p % align)) % align == 0) by (nonlinear_arith)
            requires
                0 <= p,
                0 < align,
        {
            vstd::arithmetic::div_mod::lemma_fundamental_div_mod(p, align);
        }
    }
}

/// A power of two is positive.
pub proof fn lemma_pow2_positive(a: int)
    requires
        is_pow2(a),
    ensures
        0 < a,
{
    reveal_with_fuel(is_pow2, 1);
}

/// A contiguous byte range `[ptr, ptr + size)` requested with alignment
/// `align`. It is a descriptor handed between allocator operations and owns
/// nothing.
#[derive(Clone, Copy, Debug, PartialEq, Eq, Structural)]
pub struct Block {
    pub ptr: usize,
    pub size: usize,
    pub align: usize,
}

impl Block {
    /// One past the last byte of the block.
    pub open spec fn end(self) -> int {
        self.ptr + self.size
    }

    pub fn new(ptr: usize, size: usize, align: usize) -> (b: Block)
        ensures
            b == (Block { ptr, size, align }),
    {
        Block { ptr, size, align }
    }

    /// The address of the first byte.
    pub fn ptr(&self) -> (r: usize)
        ensures
            r == self.ptr,
    {
        self.ptr
    }

    /// The number of bytes.
    pub fn size(&self) -> (r: usize)
        ensures
            r == self.size,
    {
        self.size
    }

    /// The alignment the block was requested with.
    pub fn align(&self) -> (r: usize)
        ensures
            r == self.align,
    {
        self.align
    }

    /// Whether the block holds no bytes.
    pub fn is_empty(&self) -> (r: bool)
        ensures
            r == (self.size == 0),
    {
        self.size == 0
    }
}

/// Why an allocation did not happen.
#[derive(Debug, PartialEq, Eq)]
pub enum AllocatorError {
    /// The aligned block does not fit in what is left of the extent.
    OutOfMemory,
    /// The allocator was misused, for instance asked for memory while one of
    /// its scopes is active.
    AllocatorSpecific(String),
}

/// Rounds `p` up to a multiple of `align`, or `None` where that exceeds
/// `limit`.
pub fn align_forward(p: usize, align: usize, limit: usize) -> (r: Option<usize>)
    requires
        0 < align,
        p <= limit,
    ensures
        match r {
            Some(a) => a == align_up(p as int, align as int) && a <= limit,
            None => align_up(p as int, align as int) > limit,
        },
{
    proof {
        lemma_align_up(p as int, align as int);
    }
    let rem = p % align;
    if rem == 0 {
        Some(p)
    } else if align - rem <= limit - p {
        Some(p + (align - rem))
    } else {
        None
    }
}

} // verus!
