//! Small-step interpreters for the calculi of "Types and Programming
//! Languages", with their parsers.
//!
//! Each calculus lives in a module of its own and implements the two
//! capabilities declared here: [`parser::Parser`] turns source text into a
//! term and [`eval::Evaluator`] reduces a term towards its normal form.

pub mod eval;
pub mod parser;
pub mod term;
pub mod unty_arith;
