//! The frame allocator used while booting: it carves frames off the front of
//! the usable regions of the bootstrap memory map.
use crate::arch::PhysAddr;
use crate::boot::memory_map::{
    covers, is_usable, lemma_usable_total_push, lemma_usable_total_update, spec_end, usable_disjoint,
    usable_length, usable_total, BootstrapMemoryMap, MemoryMapEntry,
    MemoryRegionType,
};
use crate::mm::paging::{PhysFrame, Size4KiB};
use vstd::prelude::*;

verus! {

/// Regions at or above this address are out of reach of the early direct map.
pub const LOW_MEMORY_LIMIT: u64 = 0x0001_0000_0000;

/// The index of the region that an allocation of `size` bytes carves from,
/// scanning from index `i`: the first usable region holding at least `size`
/// bytes. With `low_only`, the scan stops at the first region at or above
/// [`LOW_MEMORY_LIMIT`].
pub open spec fn first_fit(s: Seq<MemoryMapEntry>, size: nat, low_only: bool, i: int) -> Option<int>
    decreases s.len() - i,
{
    if i < 0 || i >= s.len() {
        None
    } else if low_only && s[i].base@ >= LOW_MEMORY_LIMIT {
        None
    } else if is_usable(s[i]) && s[i].length >= size {
        Some(i)
    } else {
        first_fit(s, size, low_only, i + 1)
    }
}

/// `new` is region `old` with its first `size` bytes taken away; a region left
/// empty is marked allocated.
pub open spec fn carved(old: MemoryMapEntry, new: MemoryMapEntry, size: nat) -> bool {
    &&& new.base@ == old.base@ + size
    &&& new.length == old.length - size
    &&& new.memory_type == if new.length == 0 {
        MemoryRegionType::Allocated
    } else {
        old.memory_type
    }
}

/// The allocation can be carried out: the region it carves from (if any)
/// starts on a 4KiB boundary and does not wrap around the address space.
pub open spec fn can_carve(s: Seq<MemoryMapEntry>, size: nat, low_only: bool) -> bool {
    first_fit(s, size, low_only, 0) matches Some(k) ==> s[k].base@ % 4096 == 0 && spec_end(s[k]) <= u64::MAX
}

/// `new` is `old` after an allocation of `size` bytes that returned `frame`.
pub open spec fn allocation_step(
    old: Seq<MemoryMapEntry>,
    new: Seq<MemoryMapEntry>,
    size: nat,
    low_only: bool,
    frame: Option<nat>,
) -> bool {
    match first_fit(old, size, low_only, 0) {
        None => frame is None && new == old,
        Some(k) => {
            &&& frame == Some(old[k].base@)
            &&& new.len() == old.len()
            &&& carved(old[k], new[k], size)
            &&& forall|j: int| 0 <= j < old.len() && j != k ==> new[j] == old[j]
        },
    }
}

/// Region `e` with its first `size` bytes taken away.
pub open spec fn carve_entry(e: MemoryMapEntry, size: nat) -> MemoryMapEntry {
    MemoryMapEntry {
        base: PhysAddr((e.base@ + size) as u64),
        length: (e.length - size) as usize,
        memory_type: if e.length - size == 0 {
            MemoryRegionType::Allocated
        } else {
            e.memory_type
        },
    }
}

/// The memory map after an allocation of `size` bytes.
pub open spec fn alloc_next(s: Seq<MemoryMapEntry>, size: nat, low_only: bool) -> Seq<MemoryMapEntry> {
    match first_fit(s, size, low_only, 0) {
        None => s,
        Some(k) => s.update(k, carve_entry(s[k], size)),
    }
}

/// The start of the block an allocation of `size` bytes hands out.
pub open spec fn alloc_frame(s: Seq<MemoryMapEntry>, size: nat, low_only: bool) -> Option<nat> {
    match first_fit(s, size, low_only, 0) {
        None => None,
        Some(k) => Some(s[k].base@),
    }
}

/// `n` allocations of one 4KiB frame below 4GiB, made one after the other,
/// all succeed.
pub open spec fn can_allocate(s: Seq<MemoryMapEntry>, n: nat) -> bool
    decreases n,
{
    n == 0 || {
        &&& first_fit(s, 4096, true, 0) is Some
        &&& can_carve(s, 4096, true)
        &&& can_allocate(alloc_next(s, 4096, true), (n - 1) as nat)
    }
}

/// The memory map after `n` allocations of one 4KiB frame below 4GiB.
pub open spec fn alloc_iter(s: Seq<MemoryMapEntry>, n: nat) -> Seq<MemoryMapEntry>
    decreases n,
{
    if n == 0 {
        s
    } else {
        alloc_iter(alloc_next(s, 4096, true), (n - 1) as nat)
    }
}

/// Fewer allocations than a sequence that succeeds also succeed, and the rest
/// of the sequence still succeeds afterwards.
pub proof fn lemma_can_allocate_split(s: Seq<MemoryMapEntry>, n: nat, m: nat)
    requires
        can_allocate(s, n + m),
    ensures
        can_allocate(s, n),
        can_allocate(alloc_iter(s, n), m),
    decreases n,
{
    if n > 0 {
        lemma_can_allocate_split(alloc_next(s, 4096, true), (n - 1) as nat, m);
    }
}

/// A sequence of allocations succeeds when its first `n` do and the rest do
/// after them.
pub proof fn lemma_can_allocate_join(s: Seq<MemoryMapEntry>, n: nat, m: nat)
    requires
        can_allocate(s, n),
        can_allocate(alloc_iter(s, n), m),
    ensures
        can_allocate(s, n + m),
    decreases n,
{
    if n > 0 {
        lemma_can_allocate_join(alloc_next(s, 4096, true), (n - 1) as nat, m);
    }
}

/// Allocations compose.
pub proof fn lemma_alloc_iter_add(s: Seq<MemoryMapEntry>, n: nat, m: nat)
    ensures
        alloc_iter(alloc_iter(s, n), m) == alloc_iter(s, n + m),
    decreases n,
{
    if n > 0 {
        lemma_alloc_iter_add(alloc_next(s, 4096, true), (n - 1) as nat, m);
    }
}

/// An allocation step is the deterministic successor of the map.
pub proof fn lemma_step_is_next(old: Seq<MemoryMapEntry>, new: Seq<MemoryMapEntry>, size: nat, low_only: bool, frame: Option<nat>)
    requires
        allocation_step(old, new, size, low_only, frame),
    ensures
        new == alloc_next(old, size, low_only),
        frame == alloc_frame(old, size, low_only),
{
    if let Some(k) = first_fit(old, size, low_only, 0) {
        lemma_first_fit_found(old, size, low_only, 0);
        assert(new =~= alloc_next(old, size, low_only));
    }
}

/// A block handed out by an allocation that can be carried out starts on a
/// 4KiB boundary.
pub proof fn lemma_frame_aligned(s: Seq<MemoryMapEntry>, size: nat, low_only: bool)
    requires
        can_carve(s, size, low_only),
    ensures
        alloc_frame(s, size, low_only) matches Some(f) ==> f % 4096 == 0,
{
}

/// A block handed out below 4GiB starts below 4GiB.
pub proof fn lemma_frame_low(s: Seq<MemoryMapEntry>, size: nat)
    ensures
        alloc_frame(s, size, true) matches Some(f) ==> f < LOW_MEMORY_LIMIT,
{
    if first_fit(s, size, true, 0) is Some {
        lemma_first_fit_low(s, size, 0);
    }
}

proof fn lemma_first_fit_low(s: Seq<MemoryMapEntry>, size: nat, i: int)
    ensures
        first_fit(s, size, true, i) matches Some(k) ==> s[k].base@ < LOW_MEMORY_LIMIT,
    decreases s.len() - i,
{
    if !(i < 0 || i >= s.len()) && !(s[i].base@ >= LOW_MEMORY_LIMIT) && !(is_usable(s[i]) && s[i].length >= size) {
        lemma_first_fit_low(s, size, i + 1);
    }
}

proof fn lemma_first_fit_from(s: Seq<MemoryMapEntry>, size: nat, low_only: bool, i: int)
    requires
        0 <= i <= s.len(),
        forall|j: int|
            0 <= j < i ==> !(low_only && s[j].base@ >= LOW_MEMORY_LIMIT) && !(is_usable(#[trigger] s[j])
                && s[j].length >= size),
    ensures
        first_fit(s, size, low_only, 0) == first_fit(s, size, low_only, i),
    decreases i,
{
    if i > 0 {
        lemma_first_fit_from(s, size, low_only, i - 1);
    }
}

proof fn lemma_first_fit_found(s: Seq<MemoryMapEntry>, size: nat, low_only: bool, i: int)
    requires
        first_fit(s, size, low_only, i) matches Some(k),
    ensures
        first_fit(s, size, low_only, i) matches Some(k) && i <= k < s.len() && is_usable(s[k])
            && s[k].length >= size,
    decreases s.len() - i,
{
    if !(i < 0 || i >= s.len()) && !(low_only && s[i].base@ >= LOW_MEMORY_LIMIT) && !(is_usable(s[i])
        && s[i].length >= size) {
        lemma_first_fit_found(s, size, low_only, i + 1);
    }
}

/// Allocates physical frames from a bootstrap memory map that it owns.
pub struct BootstrapFrameAllocator {
    memory_map: BootstrapMemoryMap,
}

impl BootstrapFrameAllocator {
    /// The memory map the frames are carved from.
    pub closed spec fn spec_map(&self) -> Seq<MemoryMapEntry> {
        self.memory_map@
    }

    pub fn new(memory_map: BootstrapMemoryMap) -> (r: Self)
        ensures
            r.spec_map() == memory_map@,
    {
        Self { memory_map }
    }

    /// The memory map, as it stands.
    pub fn memory_map(&self) -> (r: &BootstrapMemoryMap)
        ensures
            r@ == self.spec_map(),
    {
        &self.memory_map
    }

    /// Gives the memory map back.
    pub fn into_memory_map(self) -> (r: BootstrapMemoryMap)
        ensures
            r@ == self.spec_map(),
    {
        self.memory_map
    }

    /// Carves `size` bytes off the first region that fits and returns the start
    /// of the carved block.
    fn carve(&mut self, size: usize, low_only: bool) -> (r: Option<PhysAddr>)
        requires
            can_carve(old(self).spec_map(), size as nat, low_only),
        ensures
            allocation_step(
                old(self).spec_map(),
                final(self).spec_map(),
                size as nat,
                low_only,
                match r {
                    Some(a) => Some(a@),
                    None => None,
                },
            ),
    {
        let ghost s = self.memory_map@;
        let mut i: usize = 0;
        while i < self.memory_map.len()
            invariant
                self.memory_map@ == s,
                s == old(self).spec_map(),
                i <= s.len(),
                can_carve(s, size as nat, low_only),
                first_fit(s, size as nat, low_only, 0) == first_fit(s, size as nat, low_only, i as int),
            decreases s.len() - i,
        {
            let region = self.memory_map.index(i);
            proof {
                assert(first_fit(s, size as nat, low_only, i as int) == if low_only && s[i as int].base@
                    >= LOW_MEMORY_LIMIT {
                    None
                } else if is_usable(s[i as int]) && s[i as int].length >= size {
                    Some(i as int)
                } else {
                    first_fit(s, size as nat, low_only, i as int + 1)
                });
            }

            // Regions above 4GiB are not reachable yet.
            if low_only && region.base.as_u64() >= LOW_MEMORY_LIMIT {
                return None;
            }
            if region.memory_type == MemoryRegionType::Usable && region.length >= size {
                let frame_addr = region.base;
                let length = region.length - size;
                let memory_type = if length == 0 {
                    MemoryRegionType::Allocated
                } else {
                    region.memory_type
                };
                let new_region = MemoryMapEntry {
                    base: frame_addr.offset(size as u64),
                    length,
                    memory_type,
                };
                self.memory_map.set(i, new_region);
                proof {
                    assert(carved(s[i as int], self.memory_map@[i as int], size as nat));
                }
                return Some(frame_addr);
            }
            i = i + 1;
        }
        None
    }

    /// Allocates one 4KiB frame below 4GiB, where the early direct map reaches.
    pub fn allocate_mapped_frame(&mut self) -> (r: Option<PhysFrame<Size4KiB>>)
        requires
            can_carve(old(self).spec_map(), 4096, true),
        ensures
            allocation_step(
                old(self).spec_map(),
                final(self).spec_map(),
                4096,
                true,
                match r {
                    Some(f) => Some(f.spec_start()),
                    None => None,
                },
            ),
    {
        match self.carve(4096, true) {
            Some(a) => Some(PhysFrame::from_start_address(a)),
            None => None,
        }
    }

    /// Allocates `count` contiguous 4KiB frames below 4GiB and returns the
    /// first.
    pub fn allocate_mapped_contiguous(&mut self, count: usize) -> (r: Option<PhysFrame<Size4KiB>>)
        requires
            count * 4096 <= usize::MAX,
            can_carve(old(self).spec_map(), (count * 4096) as nat, true),
        ensures
            allocation_step(
                old(self).spec_map(),
                final(self).spec_map(),
                (count * 4096) as nat,
                true,
                match r {
                    Some(f) => Some(f.spec_start()),
                    None => None,
                },
            ),
    {
        let size = count * 4096;
        match self.carve(size, true) {
            Some(a) => Some(PhysFrame::from_start_address(a)),
            None => None,
        }
    }

    /// Gives the region `start..start + length` back as usable memory.
    pub fn deallocate_region(&mut self, start: PhysAddr, length: usize)
        requires
            length % 4096 == 0,
            start@ % 4096 == 0,
        ensures
            final(self).spec_map() == old(self).spec_map().push(
                MemoryMapEntry { base: start, length, memory_type: MemoryRegionType::Usable },
            ),
    {
        self.memory_map.push(MemoryMapEntry { base: start, length, memory_type: MemoryRegionType::Usable });
    }

    /// Whether an allocation of `size` bytes can be carried out: the region it
    /// would carve from, if any, starts on a 4KiB boundary and does not wrap
    /// around the address space.
    pub fn can_carve_check(&self, size: usize, low_only: bool) -> (r: bool)
        ensures
            r == can_carve(self.spec_map(), size as nat, low_only),
    {
        let ghost s = self.memory_map@;
        let mut i: usize = 0;
        while i < self.memory_map.len()
            invariant
                s == self.spec_map(),
                i <= s.len(),
                first_fit(s, size as nat, low_only, 0) == first_fit(s, size as nat, low_only, i as int),
            decreases s.len() - i,
        {
            let region = self.memory_map.index(i);
            if low_only && region.base.as_u64() >= LOW_MEMORY_LIMIT {
                return true;
            }
            if region.memory_type == MemoryRegionType::Usable && region.length >= size {
                return region.base.as_u64() % 4096 == 0 && region.length as u64 <= u64::MAX - region.base.as_u64();
            }
            i = i + 1;
        }
        true
    }

    /// Whether `n` allocations of one 4KiB frame below 4GiB, one after the
    /// other, would all succeed.
    pub fn can_allocate_frames(&self, n: usize) -> (r: bool)
        ensures
            r == can_allocate(self.spec_map(), n as nat),
    {
        let mut entries: Vec<MemoryMapEntry> = Vec::new();
        let mut i: usize = 0;
        while i < self.memory_map.len()
            invariant
                i <= self.spec_map().len(),
                entries@ == self.spec_map().subrange(0, i as int),
            decreases self.spec_map().len() - i,
        {
            entries.push(self.memory_map.index(i));
            i = i + 1;
            proof {
                assert(entries@ =~= self.spec_map().subrange(0, i as int));
            }
        }
        proof {
            assert(entries@ =~= self.spec_map());
        }
        let mut trial = BootstrapFrameAllocator::new(
            BootstrapMemoryMap::new(entries.as_slice(), crate::mm::allocator::bump::BumpAllocator::empty()),
        );
        let mut left = n;
        while left > 0
            invariant
                left <= n,
                can_allocate(self.spec_map(), n as nat) == can_allocate(trial.spec_map(), left as nat),
            decreases left,
        {
            if !trial.can_carve_check(4096, true) {
                return false;
            }
            let ghost before = trial.spec_map();
            let frame = trial.allocate_mapped_frame();
            proof {
                lemma_step_is_next(
                    before,
                    trial.spec_map(),
                    4096,
                    true,
                    match frame {
                        Some(f) => Some(f.spec_start()),
                        None => None,
                    },
                );
            }
            if frame.is_none() {
                return false;
            }
            left = left - 1;
        }
        true
    }

    /// Allocates one 4KiB frame anywhere in memory.
    pub fn allocate_frame(&mut self) -> (r: Option<PhysFrame<Size4KiB>>)
        requires
            can_carve(old(self).spec_map(), 4096, false),
        ensures
            allocation_step(
                old(self).spec_map(),
                final(self).spec_map(),
                4096,
                false,
                match r {
                    Some(f) => Some(f.spec_start()),
                    None => None,
                },
            ),
    {
        match self.carve(4096, false) {
            Some(a) => Some(PhysFrame::from_start_address(a)),
            None => None,
        }
    }
}

/// An allocation hands out memory that was usable, and afterwards exactly that
/// block is no longer usable: every other usable address stays usable, and the
/// usable regions stay disjoint.
pub proof fn lemma_allocation_takes_block(
    old: Seq<MemoryMapEntry>,
    new: Seq<MemoryMapEntry>,
    size: nat,
    low_only: bool,
    frame: nat,
)
    requires
        usable_disjoint(old),
        allocation_step(old, new, size, low_only, Some(frame)),
    ensures
        forall|a: nat| frame <= a < frame + size ==> covers(old, a),
        forall|a: nat| covers(new, a) <==> (covers(old, a) && !(frame <= a < frame + size)),
        usable_disjoint(new),
{
    let k = first_fit(old, size, low_only, 0)->0;
    lemma_first_fit_found(old, size, low_only, 0);
    assert forall|a: nat| frame <= a < frame + size implies covers(old, a) by {
        assert(is_usable(old[k]) && old[k].base@ <= a < spec_end(old[k]));
    }
    assert forall|a: nat| covers(new, a) implies (covers(old, a) && !(frame <= a < frame + size)) by {
        let i = choose|i: int| 0 <= i < new.len() && is_usable(#[trigger] new[i]) && new[i].base@ <= a < spec_end(new[i]);
        if i == k {
            assert(is_usable(old[k]) && old[k].base@ <= a < spec_end(old[k]));
        } else {
            assert(new[i] == old[i]);
            assert(is_usable(old[i]) && old[i].base@ <= a < spec_end(old[i]));
        }
    }
    assert forall|a: nat| (covers(old, a) && !(frame <= a < frame + size)) implies covers(new, a) by {
        let i = choose|i: int| 0 <= i < old.len() && is_usable(#[trigger] old[i]) && old[i].base@ <= a < spec_end(old[i]);
        if i == k {
            assert(is_usable(new[k]) && new[k].base@ <= a < spec_end(new[k]));
        } else {
            assert(new[i] == old[i]);
            assert(is_usable(new[i]) && new[i].base@ <= a < spec_end(new[i]));
        }
    }
    assert forall|i: int, j: int|
        0 <= i < new.len() && 0 <= j < new.len() && i != j && is_usable(#[trigger] new[i]) && is_usable(
            #[trigger] new[j],
        ) implies spec_end(new[i]) <= new[j].base@ || spec_end(new[j]) <= new[i].base@ by {
        if i != k {
            assert(new[i] == old[i]);
        }
        if j != k {
            assert(new[j] == old[j]);
        }
        assert(is_usable(old[i]) && is_usable(old[j]));
    }
}

/// An allocation of `size` bytes lowers the usable total by exactly `size`.
pub proof fn lemma_allocation_conserves(
    old: Seq<MemoryMapEntry>,
    new: Seq<MemoryMapEntry>,
    size: nat,
    low_only: bool,
    frame: nat,
)
    requires
        allocation_step(old, new, size, low_only, Some(frame)),
    ensures
        usable_total(new) + size == usable_total(old),
{
    let k = first_fit(old, size, low_only, 0)->0;
    lemma_first_fit_found(old, size, low_only, 0);
    assert(new =~= old.update(k, new[k]));
    lemma_usable_total_update(old, k, new[k]);
}

/// Two allocations made one after the other hand out blocks that do not
/// overlap; in particular the same frame is never handed out twice.
pub proof fn lemma_successive_allocations_disjoint(
    s0: Seq<MemoryMapEntry>,
    s1: Seq<MemoryMapEntry>,
    s2: Seq<MemoryMapEntry>,
    size1: nat,
    size2: nat,
    low1: bool,
    low2: bool,
    f1: nat,
    f2: nat,
)
    requires
        usable_disjoint(s0),
        size1 > 0,
        size2 > 0,
        allocation_step(s0, s1, size1, low1, Some(f1)),
        allocation_step(s1, s2, size2, low2, Some(f2)),
    ensures
        f1 + size1 <= f2 || f2 + size2 <= f1,
{
    lemma_allocation_takes_block(s0, s1, size1, low1, f1);
    lemma_allocation_takes_block(s1, s2, size2, low2, f2);
    if !(f1 + size1 <= f2 || f2 + size2 <= f1) {
        if f1 <= f2 {
            assert(covers(s1, f2));
        } else {
            assert(covers(s1, f1));
        }
    }
}

/// Giving a region back adds its length to the usable total.
pub proof fn lemma_deallocation_adds(s: Seq<MemoryMapEntry>, e: MemoryMapEntry)
    requires
        is_usable(e),
    ensures
        usable_total(s.push(e)) == usable_total(s) + e.length,
{
    lemma_usable_total_push(s, e);
}

/// An allocation that can be carried out is a step of the allocator.
pub(crate) proof fn lemma_next_is_step(s: Seq<MemoryMapEntry>, size: nat, low_only: bool)
    requires
        first_fit(s, size, low_only, 0) is Some,
        can_carve(s, size, low_only),
    ensures
        allocation_step(s, alloc_next(s, size, low_only), size, low_only, alloc_frame(s, size, low_only)),
{
    lemma_first_fit_found(s, size, low_only, 0);
}

/// Each frame taken for the page tables leaves 4KiB less usable memory.
pub(crate) proof fn lemma_alloc_iter_total(s: Seq<MemoryMapEntry>, n: nat)
    requires
        can_allocate(s, n),
    ensures
        usable_total(alloc_iter(s, n)) + 4096 * n == usable_total(s),
    decreases n,
{
    if n > 0 {
        lemma_next_is_step(s, 4096, true);
        lemma_allocation_conserves(s, alloc_next(s, 4096, true), 4096, true, alloc_frame(s, 4096, true)->0);
        lemma_alloc_iter_total(alloc_next(s, 4096, true), (n - 1) as nat);
    }
}

/// Table allocations only ever take usable memory away, and keep the usable
/// regions disjoint.
pub(crate) proof fn lemma_alloc_iter_shrinks(s: Seq<MemoryMapEntry>, n: nat)
    requires
        usable_disjoint(s),
        can_allocate(s, n),
    ensures
        usable_disjoint(alloc_iter(s, n)),
        forall|a: nat| covers(alloc_iter(s, n), a) ==> covers(s, a),
    decreases n,
{
    if n > 0 {
        let t = alloc_next(s, 4096, true);
        lemma_next_is_step(s, 4096, true);
        lemma_allocation_takes_block(s, t, 4096, true, alloc_frame(s, 4096, true)->0);
        lemma_alloc_iter_shrinks(t, (n - 1) as nat);
    }
}

} // verus!
