//! The untyped calculus of booleans and natural numbers.
//!
//! [`term`] holds the terms, [`parser`] reads a term from text and [`eval`]
//! evaluates it step by step. [`grammar`] shows that the parser reads every
//! term back from its own text, and [`well_formed`] that evaluation gets
//! stuck on no term whose operands are all of the right sort.

pub mod eval;
pub mod grammar;
pub mod parser;
pub mod term;
pub mod well_formed;
