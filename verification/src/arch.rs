//! Physical and virtual addresses.
use vstd::prelude::*;

verus! {

/// Rounds `addr` down to a multiple of `align`.
pub open spec fn spec_align_down(addr: nat, align: nat) -> nat
    recommends
        align > 0,
{
    (addr / align) * align
}

/// Rounds `addr` up to a multiple of `align`.
pub open spec fn spec_align_up(addr: nat, align: nat) -> nat
    recommends
        align > 0,
{
    if addr % align == 0 {
        addr
    } else {
        (addr / align + 1) * align
    }
}

/// Facts about rounding to a multiple.
pub proof fn lemma_align_facts(addr: nat, align: nat)
    requires
        align > 0,
    ensures
        spec_align_down(addr, align) <= addr,
        addr - spec_align_down(addr, align) < align,
        spec_align_down(addr, align) % align == 0,
        addr <= spec_align_up(addr, align),
        spec_align_up(addr, align) < addr + align,
        spec_align_up(addr, align) % align == 0,
{
    vstd::arithmetic::div_mod::lemma_fundamental_div_mod(addr as int, align as int);
    vstd::arithmetic::div_mod::lemma_mod_pos_bound(addr as int, align as int);
    assert((addr / align) * align == align * (addr / align)) by (nonlinear_arith);
    vstd::arithmetic::div_mod::lemma_mod_multiples_basic((addr / align) as int, align as int);
    vstd::arithmetic::div_mod::lemma_mod_multiples_basic((addr / align + 1) as int, align as int);
    assert((addr / align + 1) * align == (addr / align) * align + align) by (nonlinear_arith);
}

/// The level-4 table index of virtual address `a`.
pub open spec fn spec_p4(a: nat) -> nat {
    (a / 0x80_0000_0000) % 512
}

/// The level-3 table index of virtual address `a`.
pub open spec fn spec_p3(a: nat) -> nat {
    (a / 0x4000_0000) % 512
}

/// The level-2 table index of virtual address `a`.
pub open spec fn spec_p2(a: nat) -> nat {
    (a / 0x20_0000) % 512
}

/// The level-1 table index of virtual address `a`.
pub open spec fn spec_p1(a: nat) -> nat {
    (a / 0x1000) % 512
}

/// A physical memory address.
#[derive(Clone, Copy, Debug, PartialEq, Eq, Structural)]
pub struct PhysAddr(pub u64);

/// A virtual memory address.
#[derive(Clone, Copy, Debug, PartialEq, Eq, Structural)]
pub struct VirtAddr(pub u64);

impl View for PhysAddr {
    type V = nat;

    open spec fn view(&self) -> nat {
        self.0 as nat
    }
}

impl View for VirtAddr {
    type V = nat;

    open spec fn view(&self) -> nat {
        self.0 as nat
    }
}

impl PhysAddr {
    /// The null physical address.
    pub fn null() -> (r: PhysAddr)
        ensures
            r@ == 0,
    {
        PhysAddr(0)
    }

    pub fn new(addr: u64) -> (r: PhysAddr)
        ensures
            r@ == addr,
    {
        PhysAddr(addr)
    }

    pub fn as_usize(&self) -> (r: usize)
        requires
            self@ <= usize::MAX,
        ensures
            r == self@,
    {
        self.0 as usize
    }

    pub fn as_u64(&self) -> (r: u64)
        ensures
            r == self@,
    {
        self.0
    }

    pub fn is_aligned(&self, align: u64) -> (r: bool)
        requires
            align > 0,
        ensures
            r == (self@ % align as nat == 0),
    {
        self.0 % align == 0
    }

    /// The address `self + offset`.
    pub fn offset(&self, offset: u64) -> (r: PhysAddr)
        requires
            self@ + offset <= u64::MAX,
        ensures
            r@ == self@ + offset,
    {
        PhysAddr(self.0 + offset)
    }

    /// The distance `self - other`.
    pub fn distance_from(&self, other: PhysAddr) -> (r: u64)
        requires
            other@ <= self@,
        ensures
            r == self@ - other@,
    {
        self.0 - other.0
    }

    pub fn align_down(&self, align: u64) -> (r: PhysAddr)
        requires
            align > 0,
        ensures
            r@ == spec_align_down(self@, align as nat),
    {
        PhysAddr(align_down_u64(self.0, align))
    }

    pub fn align_up(&self, align: u64) -> (r: PhysAddr)
        requires
            align > 0,
            self@ + align <= u64::MAX,
        ensures
            r@ == spec_align_up(self@, align as nat),
    {
        PhysAddr(align_up_u64(self.0, align))
    }
}

impl VirtAddr {
    /// The null virtual address.
    pub fn null() -> (r: VirtAddr)
        ensures
            r@ == 0,
    {
        VirtAddr(0)
    }

    pub fn new(addr: u64) -> (r: VirtAddr)
        ensures
            r@ == addr,
    {
        VirtAddr(addr)
    }

    pub fn as_usize(&self) -> (r: usize)
        requires
            self@ <= usize::MAX,
        ensures
            r == self@,
    {
        self.0 as usize
    }

    pub fn as_u64(&self) -> (r: u64)
        ensures
            r == self@,
    {
        self.0
    }

    pub fn is_aligned(&self, align: u64) -> (r: bool)
        requires
            align > 0,
        ensures
            r == (self@ % align as nat == 0),
    {
        self.0 % align == 0
    }

    /// The address `self + offset`.
    pub fn offset(&self, offset: u64) -> (r: VirtAddr)
        requires
            self@ + offset <= u64::MAX,
        ensures
            r@ == self@ + offset,
    {
        VirtAddr(self.0 + offset)
    }

    /// Index into the level-4 table: bits 39..48.
    pub fn p4_index(&self) -> (r: usize)
        ensures
            r == spec_p4(self@),
            r < 512,
    {
        ((self.0 / 0x80_0000_0000) % 512) as usize
    }

    /// Index into the level-3 table: bits 30..39.
    pub fn p3_index(&self) -> (r: usize)
        ensures
            r == spec_p3(self@),
            r < 512,
    {
        ((self.0 / 0x4000_0000) % 512) as usize
    }

    /// Index into the level-2 table: bits 21..30.
    pub fn p2_index(&self) -> (r: usize)
        ensures
            r == spec_p2(self@),
            r < 512,
    {
        ((self.0 / 0x20_0000) % 512) as usize
    }

    /// Index into the level-1 table: bits 12..21.
    pub fn p1_index(&self) -> (r: usize)
        ensures
            r == spec_p1(self@),
            r < 512,
    {
        ((self.0 / 0x1000) % 512) as usize
    }
}

fn align_down_u64(addr: u64, align: u64) -> (r: u64)
    requires
        align > 0,
    ensures
        r == spec_align_down(addr as nat, align as nat),
{
    proof {
        lemma_align_facts(addr as nat, align as nat);
    }
    let q = addr / align;
    q * align
}

fn align_up_u64(addr: u64, align: u64) -> (r: u64)
    requires
        align > 0,
        addr + align <= u64::MAX,
    ensures
        r == spec_align_up(addr as nat, align as nat),
{
    proof {
        lemma_align_facts(addr as nat, align as nat);
    }
    if addr % align == 0 {
        addr
    } else {
        let q = addr / align + 1;
        q * align
    }
}

} // verus!
