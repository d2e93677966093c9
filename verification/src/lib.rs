//! Translation of abstract text edits (zero-based, exclusive ranges) into a
//! single command string for an editor with one-based, inclusive selections.
//!
//! The pipeline runs strictly forward: each abstract edit is converted to a
//! native range and classified (insert-before / insert-after / replace), the
//! batch is stably sorted left to right, adjoining pairs are detected, and one
//! command string is emitted.

pub mod convert;
pub mod emit;
pub mod model;
pub mod order;
pub mod text;
