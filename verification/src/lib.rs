//! A growable sequence container with a small-size optimization.
//!
//! `SmolVec<T>` keeps up to [`INLINE_CAPACITY`] elements in a fixed block of
//! slots held directly inside the container, and moves to a heap-backed
//! buffer only when the element count outgrows that block. Every operation
//! carries a contract over the container's mathematical view (a sequence of
//! its live elements).

pub mod container;
pub mod derived;
pub mod laws;

pub use container::INLINE_CAPACITY;
pub use container::SmolVec;
