//! A bump allocator over a fixed virtual range.
use crate::arch::VirtAddr;
use vstd::prelude::*;

verus! {

/// Hands out consecutive blocks of `base..base + len`; freeing is a no-op.
#[derive(Debug)]
pub struct BumpAllocator {
    base: VirtAddr,
    len: usize,
    index: usize,
}

impl BumpAllocator {
    /// The start of the managed range.
    pub closed spec fn spec_base(&self) -> nat {
        self.base@
    }

    /// The length of the managed range.
    pub closed spec fn spec_len(&self) -> nat {
        self.len as nat
    }

    /// The number of bytes handed out so far.
    pub closed spec fn spec_index(&self) -> nat {
        self.index as nat
    }

    /// An allocator over an empty range.
    pub fn empty() -> (r: Self)
        ensures
            r.spec_base() == 0,
            r.spec_len() == 0,
            r.spec_index() == 0,
    {
        Self { base: VirtAddr::null(), len: 0, index: 0 }
    }

    /// An allocator over `base..base + len`.
    pub fn new(base: VirtAddr, len: usize) -> (r: Self)
        ensures
            r.spec_base() == base@,
            r.spec_len() == len,
            r.spec_index() == 0,
    {
        Self { base, len, index: 0 }
    }

    /// Moves the allocator to `base..base + len`; the bytes already handed out
    /// stay counted.
    pub fn init(&mut self, base: VirtAddr, len: usize)
        ensures
            final(self).spec_base() == base@,
            final(self).spec_len() == len,
            final(self).spec_index() == old(self).spec_index(),
    {
        self.base = base;
        self.len = len;
    }

    /// The managed range as start and length.
    pub fn mapped_range(&self) -> (r: (VirtAddr, usize))
        ensures
            r.0@ == self.spec_base(),
            r.1 == self.spec_len(),
    {
        (self.base, self.len)
    }

    /// Hands out the next `size` bytes and returns their start address. The
    /// allocator must have room for them.
    pub fn allocate(&mut self, size: usize) -> (r: VirtAddr)
        requires
            old(self).spec_index() + size <= old(self).spec_len(),
            old(self).spec_base() + old(self).spec_len() <= u64::MAX,
        ensures
            r@ == old(self).spec_base() + old(self).spec_index(),
            final(self).spec_index() == old(self).spec_index() + size,
            final(self).spec_base() == old(self).spec_base(),
            final(self).spec_len() == old(self).spec_len(),
    {
        let index = self.index;
        self.index = self.index + size;
        self.base.offset(index as u64)
    }

    /// Freeing a block does nothing.
    pub fn deallocate(&mut self, _ptr: VirtAddr, _size: usize)
        ensures
            *final(self) == *old(self),
    {
    }
}

/// Two blocks handed out one after the other do not overlap, and both lie in
/// the managed range.
pub proof fn lemma_bump_blocks_disjoint(a0: BumpAllocator, s1: nat, a1: BumpAllocator, s2: nat, a2: BumpAllocator, p1: nat, p2: nat)
    requires
        a0.spec_index() + s1 <= a0.spec_len(),
        p1 == a0.spec_base() + a0.spec_index(),
        a1.spec_index() == a0.spec_index() + s1,
        a1.spec_base() == a0.spec_base(),
        a1.spec_len() == a0.spec_len(),
        a1.spec_index() + s2 <= a1.spec_len(),
        p2 == a1.spec_base() + a1.spec_index(),
        a2.spec_index() == a1.spec_index() + s2,
    ensures
        p1 + s1 <= p2,
        a0.spec_base() <= p1,
        p2 + s2 <= a0.spec_base() + a0.spec_len(),
{
}

} // verus!
