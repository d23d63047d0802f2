//! Raw memory: layouts, allocators, policies and buffers.

pub mod allocator;
pub mod buffer;
pub mod layout;
pub mod policy;
