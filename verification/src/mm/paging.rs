//! Pages and physical frames.
use crate::arch::{PhysAddr, VirtAddr};
use core::marker::PhantomData;
use vstd::prelude::*;

verus! {

/// A page size supported by the MMU.
pub trait PageSize: Copy + Clone + core::fmt::Debug {
    /// The size in bytes.
    spec fn spec_size() -> nat;

    /// The size in bytes.
    fn size() -> (r: u64)
        ensures
            r == Self::spec_size(),
            r > 0,
    ;
}

/// A 4KiB page.
#[derive(Debug, Clone, Copy)]
pub struct Size4KiB;

/// A 2MiB page.
#[derive(Debug, Clone, Copy)]
pub struct Size2MiB;

/// A 1GiB page.
#[derive(Debug, Clone, Copy)]
pub struct Size1GiB;

impl PageSize for Size4KiB {
    open spec fn spec_size() -> nat {
        4096
    }

    fn size() -> (r: u64) {
        4096
    }
}

impl PageSize for Size2MiB {
    open spec fn spec_size() -> nat {
        4096 * 512
    }

    fn size() -> (r: u64) {
        4096 * 512
    }
}

impl PageSize for Size1GiB {
    open spec fn spec_size() -> nat {
        4096 * 512 * 512
    }

    fn size() -> (r: u64) {
        4096 * 512 * 512
    }
}

/// A virtual page of size `S`.
pub struct Page<S: PageSize> {
    base: VirtAddr,
    _marker: PhantomData<S>,
}

/// The start address was not aligned to the page size.
#[derive(Debug, Clone, Copy)]
pub struct AlignmentError;

impl<S: PageSize> Page<S> {
    /// The start address of the page.
    pub closed spec fn spec_start(&self) -> nat {
        self.base@
    }

    /// Creates a page from its start address, which must be aligned.
    pub fn from_start_address(base: VirtAddr) -> (r: Self)
        requires
            base@ % S::spec_size() == 0,
        ensures
            r.spec_start() == base@,
    {
        match Self::try_from_start_address(base) {
            Ok(page) => page,
            Err(_) => {
                proof {
                    assert(false);
                }
                Self::from_start_address_unchecked(base)
            },
        }
    }

    /// Creates a page from its start address, or fails if it is not aligned.
    pub fn try_from_start_address(base: VirtAddr) -> (r: Result<Self, AlignmentError>)
        ensures
            (base@ % S::spec_size() == 0) <==> r is Ok,
            r matches Ok(p) ==> p.spec_start() == base@,
    {
        match base.is_aligned(S::size()) {
            true => Ok(Self::from_start_address_unchecked(base)),
            false => Err(AlignmentError),
        }
    }

    /// Creates a page from a start address without checking its alignment.
    pub fn from_start_address_unchecked(base: VirtAddr) -> (r: Self)
        ensures
            r.spec_start() == base@,
    {
        Self { base, _marker: PhantomData }
    }

    /// The page that contains `addr`.
    pub fn containing_address(addr: VirtAddr) -> (r: Self)
        ensures
            r.spec_start() == (addr@ / S::spec_size()) * S::spec_size(),
            r.spec_start() <= addr@ < r.spec_start() + S::spec_size(),
    {
        let size = S::size();
        proof {
            crate::arch::lemma_align_facts(addr@, size as nat);
        }
        let base = VirtAddr::new(addr.as_u64() / size * size);
        Self::from_start_address(base)
    }

    pub fn start_address(&self) -> (r: VirtAddr)
        ensures
            r@ == self.spec_start(),
    {
        self.base
    }

    pub fn size(&self) -> (r: u64)
        ensures
            r == S::spec_size(),
    {
        S::size()
    }
}

/// A physical frame of size `S`.
#[derive(Debug, Copy)]
pub struct PhysFrame<S: PageSize> {
    base: PhysAddr,
    _marker: PhantomData<S>,
}

impl<S: PageSize> Clone for PhysFrame<S> {
    fn clone(&self) -> (r: Self)
        ensures
            r.spec_start() == self.spec_start(),
    {
        proof {
            use_type_invariant(self);
        }
        Self { base: self.base, _marker: PhantomData }
    }
}

impl<S: PageSize> PhysFrame<S> {
    /// A frame starts at a multiple of its size.
    #[verifier::type_invariant]
    spec fn aligned(self) -> bool {
        self.base@ % S::spec_size() == 0
    }

    /// The start address of the frame.
    pub closed spec fn spec_start(&self) -> nat {
        self.base@
    }

    /// The start address of the frame, a multiple of the frame's size.
    pub fn start_address(&self) -> (r: PhysAddr)
        ensures
            r@ == self.spec_start(),
            r@ % S::spec_size() == 0,
    {
        proof {
            use_type_invariant(self);
        }
        self.base
    }

    /// Creates a frame from its start address, which must be aligned.
    pub fn from_start_address(base: PhysAddr) -> (r: Self)
        requires
            base@ % S::spec_size() == 0,
        ensures
            r.spec_start() == base@,
    {
        Self { base, _marker: PhantomData }
    }

    /// The frame that contains `addr`.
    pub fn containing_address(addr: PhysAddr) -> (r: Self)
        ensures
            r.spec_start() == (addr@ / S::spec_size()) * S::spec_size(),
            r.spec_start() <= addr@ < r.spec_start() + S::spec_size(),
    {
        let size = S::size();
        proof {
            crate::arch::lemma_align_facts(addr@, size as nat);
        }
        Self { base: addr.align_down(size), _marker: PhantomData }
    }
}

/// A source of physical frames of size `S`.
pub trait FrameAllocator<S: PageSize> {
    fn allocate_frame(&mut self) -> Option<PhysFrame<S>>;
}

/// A sink for physical frames of size `S`.
pub trait FrameDeallocator<S: PageSize> {
    fn deallocate_frame(&mut self, frame: PhysFrame<S>);
}

} // verus!
