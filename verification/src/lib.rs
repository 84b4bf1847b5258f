//! A line-oriented scripting language: the parts of its interpreter that
//! decide what a script does.
//!
//! Every line of a script is one statement, told apart by its prefix. This
//! crate holds the decisions: how text is trimmed, interpolated and decoded,
//! where a block ends, what an expression asks to be computed, and what one
//! statement does to the variable store and the function table. Writing to
//! the terminal, reading from it, arithmetic on floating-point numbers and
//! running blocks side by side are left to the caller, who is told what to
//! do by the [`interpreter::Action`] that each statement yields.

pub mod error;
pub mod escape;
pub mod expression;
pub mod interpolation;
pub mod interpreter;
pub mod laws;
pub mod scanner;
pub mod statement;
pub mod store;
pub mod syntax;
pub mod text;
