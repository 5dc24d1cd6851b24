//! Render a sequence of items as a single string, with a separator placed
//! strictly between consecutive items.
//!
//! The crate offers one capability, the [`Join`] trait: a default join that
//! uses each item's canonical string form, and a formatted join that takes a
//! caller-supplied item-to-string function. The default join is a thin layer
//! over the formatted one.

pub mod canonical;
pub mod join;

pub use canonical::Canonical;
pub use join::Join;
