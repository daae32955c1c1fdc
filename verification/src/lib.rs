//! A verified storage core: slotted pages with CRC-32 integrity checking,
//! a clock-sweep buffer pool, and the node-level ordered search that a
//! B-tree index performs on a page.

pub mod access_manager;
pub mod buffer_manager;
pub mod disk_manager;
pub mod memory_page;
pub mod node;
pub mod slotted_page;
