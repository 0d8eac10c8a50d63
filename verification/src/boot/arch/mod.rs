pub mod memory_map;
pub mod x86_64;
