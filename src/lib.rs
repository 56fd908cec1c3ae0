//! A bump-pointer arena with a lock-free cursor, and two owning handles built on it:
//! a boxed value and a growable array.
//!
//! Arenas hand out blocks as addresses. The contents of a block are held by the handle
//! that owns it; the arena decides where each block lies and keeps blocks apart.

pub mod arena;
pub mod boxed;
pub mod bump;
pub mod layout;
pub mod unique;
pub mod vec;

pub use arena::{Alloc, AllocError};
pub use boxed::Box;
pub use bump::{BumpAlloc, BumpAlloc_};
pub use layout::Layout;
pub use unique::Unique;
pub use vec::Vec;
