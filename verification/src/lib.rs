//! Inclusive ranges `[min, max]` over `u64` and a small algebra on them:
//! overlap and adjacency tests, intersection, enclosing union, difference,
//! extension by one, slicing into pieces of one size, a total order, and a
//! comparator for looking a range up by overlap.
//!
//! Every executable function carries a contract over a mathematical model:
//! the bounds of a range as integers, and its view, the set of the values it
//! covers.
//!
//! - module `range` holds the type [`Range`] and its operations,
//! - module `order` the lexicographic order and the comparison by overlap,
//! - module `slices` the slicing of a range,
//! - module `laws` the laws that relate the operations to each other.

pub mod laws;
pub mod order;
pub mod range;
pub mod slices;

pub use range::{range, InvalidRange, Range};
pub use slices::Slices;
