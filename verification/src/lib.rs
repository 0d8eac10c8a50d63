//! Verified core logic of the Hadron kernel: bit manipulation helpers, paging
//! structures, the boot-time memory map and frame allocator, the bootstrap page
//! table, and assorted device helpers.
pub mod arch;
pub mod boot;
pub mod dev;
pub mod devices;
pub mod drivers;
pub mod mm;
pub mod util;
