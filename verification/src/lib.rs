//! A tiny LISP-style arithmetic notation: lines of the form
//! `(simplify (<op> <arg1> [<arg2>]))`, where `<op>` is `+`, `-` or `*` and
//! each argument is a signed integer literal or a nested parenthesized
//! operation, are tokenized, rebuilt into an operation tree and evaluated to
//! a 64-bit signed integer, which is rendered back in the same notation when
//! negative.

pub mod errors;
pub mod expr;
pub mod generator;
pub mod laws;
pub mod numbers;
pub mod token;
pub mod tree;
