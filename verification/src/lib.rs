//! Front end and evaluator of a small expression-oriented functional
//! language.
//!
//! The front end turns the concrete syntax tree of a source text ([`cst`])
//! into a syntax tree ([`syntax`]) and collects every error of the text in
//! one pass ([`parser`], [`literal`]); [`diag`] renders an error against the
//! text. The evaluator ([`interp`]) reduces typed expressions ([`tast`],
//! [`ty`]) in a persistent environment, with the builtin operations of
//! [`builtin`]; [`pretty`] gives the texts of expressions and faults, and
//! [`example`] a few programs.

pub mod builtin;
pub mod cst;
pub mod diag;
pub mod example;
pub mod interp;
pub mod literal;
pub mod parser;
pub mod pretty;
pub mod syntax;
pub mod tast;
pub mod text;
pub mod ty;
