//! Coverage-point cataloging for a parsed source file.
//!
//! A run walks an already-built syntax tree, registers every construct that
//! counts as a coverage point (functions, statements, branch conditions,
//! multi-arm matches, loops, macro invocations, short-circuit boolean
//! operand pairs), records which points were exercised, and aggregates the
//! two into a per-category report. Parsing the source text into the tree is
//! a collaborator's job; this crate consumes the tree.

pub mod category;
pub mod coverage;
pub mod report;
pub mod samples;
pub mod span;
pub mod tree;
pub mod walker;
