//! Finds the unsafe regions of a type-checked program, sorts the hazardous
//! operations in each into kinds, and prepares the report on them.

pub mod classify;
pub mod failure;
pub mod info;
pub mod laws;
pub mod lines;
pub mod order;
pub mod program;
pub mod quiet;
pub mod registry;
pub mod report;
pub mod span;
pub mod text;
pub mod visitor;
pub mod walk;
