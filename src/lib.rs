//! A growable, contiguous sequence container with an explicit capacity model,
//! plus its draining and owning iterators.
pub mod array;
pub mod drain;
pub mod iter;
pub mod laws;
