//! Virtual memory layout of the kernel.
use vstd::prelude::*;

verus! {

/// Each kernel process gets 64KiB of stack.
pub const KERNEL_STACK_SIZE: u64 = 0x1_0000;

/// The start of user memory (lower half).
pub const USER_MEM_START: u64 = 0x0000_0000_0000_0000;

/// The size of user memory: 128TiB, all of the lower half.
pub const USER_MEM_SIZE: u64 = 0x0000_8000_0000_0000;

/// The start of kernel memory (higher half).
pub const KERNEL_MEM_START: u64 = 0xFFFF_8000_0000_0000;

/// The size of kernel memory: 128TiB, all of the higher half.
pub const KERNEL_MEM_SIZE: u64 = 0x0000_8000_0000_0000;

/// The start of the direct map of physical memory.
pub const PAGE_TABLE_START: u64 = 0xFFFF_8000_0000_0000;

/// The size of the direct map of physical memory.
pub const PAGE_TABLE_SIZE: u64 = 0x0000_4000_0000_0000;

/// The start of the kernel heap.
pub const KERNEL_HEAP_START: u64 = 0xFFFF_C000_0000_0000;

/// The end of the kernel heap.
pub const KERNEL_HEAP_END: u64 = 0xFFFF_C010_0000_0000;

/// The size of the kernel heap: 64GiB.
pub const KERNEL_HEAP_SIZE: u64 = 0x0000_0010_0000_0000;

/// The start of the kernel stacks.
pub const KERNEL_STACK_START: u64 = 0xFFFF_C020_0000_0000;

/// The end of the kernel stacks.
pub const KERNEL_STACK_END: u64 = 0xFFFF_C020_8000_0000;

/// The total size of the kernel stacks: 2GiB.
pub const TOTAL_KERNEL_STACK_SIZE: u64 = 0x0000_0000_8000_0000;

/// The start of the framebuffer mapping.
pub const FRAMEBUFFER_START: u64 = 0xFFFF_D000_0000_0000;

/// The end of the framebuffer mapping.
pub const FRAMEBUFFER_END: u64 = 0xFFFF_E000_0000_0000;

/// The size of the framebuffer mapping: 16TiB.
pub const FRAMEBUFFER_SIZE: u64 = 0x0000_1000_0000_0000;

/// The start of the MMIO space.
pub const MMIO_SPACE_START: u64 = 0xFFFF_E000_8000_0000;

/// The end of the MMIO space.
pub const MMIO_SPACE_END: u64 = 0xFFFF_F000_8000_0000;

/// The size of the MMIO space: 16TiB.
pub const MMIO_SPACE_SIZE: u64 = 0x0000_1000_0000_0000;

/// The start of the memory-map bookkeeping area.
pub const MEMORY_MAPPINGS: u64 = 0xFFFF_F800_0000_0000;

/// The size of the memory-map bookkeeping area.
pub const MEMORY_MAPPINGS_SIZE: u64 = 0x0000_0100_0000_0000;

/// The start of the kernel text.
pub const KERNEL_TEXT_START: u64 = 0xFFFF_FFFF_8000_0000;

/// The size of the kernel text area.
pub const KERNEL_TEXT_SIZE: u64 = 0x0000_0000_8000_0000;

} // verus!
