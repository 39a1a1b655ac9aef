//! Memory: page tables, memory blocks and arenas, the pools' layout and the
//! allocator over them.

pub mod page_util;
pub mod mem_block;
pub mod memory_management;
