//! A splicing iterator: it replaces a range of a vector by replacement
//! elements, keeping the elements around the range in place, and hands out
//! the removed elements from either end.

pub mod splice;

pub use splice::Splice;
