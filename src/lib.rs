//! Single-threaded shared ownership: reference-counted cells held in a heap,
//! handles that duplicate and release them, and two small containers.

pub mod laws;
pub mod mapping;
pub mod rc;
pub mod stack;
