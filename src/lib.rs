//! A lazy adapter that flattens a sequence of groups into one sequence of
//! elements, consumable from the front and from the back.

pub mod adapter;
pub mod laws;

pub use adapter::{flatten, Flatten};
