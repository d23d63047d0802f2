//! The memory layer of a small library for numeric arrays, and the shapes and
//! tensors that are built on it.
//!
//! - [`memory`] holds layouts, allocators, the policies for alignment and
//!   initialisation, and [`memory::buffer::Buffer`], a raw region that is
//!   sized and aligned for the elements of one type.
//! - [`storage`] holds [`storage::Storage`], a buffer together with the count
//!   of the elements that are live in it.
//! - [`shape`], [`tensor`] and [`tensorizable`] hold the extents of tensors,
//!   tensors, and the conversion of nested containers into tensors.
//! - [`error`] holds the errors, [`text`] the text of their messages.
//!
//! The library has no unsafe code. A buffer accounts for its region byte by
//! byte: address, layout, padding. The values of the elements are kept in
//! typed cells beside it, one cell for each slot of the buffer.
//!
//! A value of one of the types here is in the state that its `wf` describes
//! from the function that makes it to the function that destroys it; each
//! function asks for that state and keeps it.

pub mod error;
pub mod memory;
pub mod shape;
pub mod storage;
pub mod tensor;
pub mod tensorizable;
pub mod text;
