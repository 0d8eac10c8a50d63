pub mod arch;
pub mod drivers;
pub mod frame_allocator;
pub mod limine;
pub mod memory_map;
pub mod page_table;
pub mod sections;
