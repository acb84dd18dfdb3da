//! The failure taxonomy of the expression pipeline.

use vstd::prelude::*;
use crate::tree::MathOperator;

verus! {

/// Every fallible step reports one of these; a caller either passes the
/// error on unchanged or wraps it with the position of the argument whose
/// evaluation failed and the operator that was being applied.
#[derive(Debug, PartialEq, Eq)]
pub enum EvalError {
    /// The tokenizer met a character outside the accepted alphabet.
    UnrecognizedSymbol(char),
    /// The token at the operator position is not an operator token.
    OperatorNotFound,
    /// An operator token holds a symbol other than `+`, `-` or `*`.
    UnsupportedOperator,
    /// A top-level function name other than `simplify`.
    UnsupportedFunction,
    /// Token positions inconsistent with the expected operation structure.
    MalformedArguments,
    /// Evaluation reached a syntactically missing operand.
    EvaluateOnAbsent,
    /// The first argument of an operation could not be evaluated.
    Argument1Failed { operator: MathOperator, cause: Box<EvalError> },
    /// The second argument of an operation could not be evaluated.
    Argument2Failed { operator: MathOperator, cause: Box<EvalError> },
}

} // verus!
