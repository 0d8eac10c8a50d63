pub mod allocator;
pub mod mappings;
pub mod page_table;
pub mod paging;
