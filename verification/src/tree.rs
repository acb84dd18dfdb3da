//! Operators, arguments and the operation tree.

use vstd::prelude::*;
use vstd::slice::slice_subrange;
use crate::errors::EvalError;
use crate::numbers::{parse_i32, spec_num_val, spec_parses_as_i32};
use crate::token::{token_views, Token, TokenView};

verus! {

/// The closed set of supported arithmetic operators.
#[derive(Debug, Clone, Copy, PartialEq, Eq)]
pub enum MathOperator {
    Addition,
    Subtraction,
    Multiplication,
}

impl MathOperator {
    /// Reads an operator from the one-character symbol of an operator token.
    pub fn from(symbol: char) -> (r: Result<MathOperator, EvalError>)
        ensures
            r == spec_operator_from(symbol),
    {
        match symbol {
            '+' => Ok(MathOperator::Addition),
            '-' => Ok(MathOperator::Subtraction),
            '*' => Ok(MathOperator::Multiplication),
            _ => Err(EvalError::UnsupportedOperator),
        }
    }
}

/// The operator denoted by a symbol, or `UnsupportedOperator` for any other
/// character.
pub open spec fn spec_operator_from(symbol: char) -> Result<MathOperator, EvalError> {
    if symbol == '+' {
        Ok(MathOperator::Addition)
    } else if symbol == '-' {
        Ok(MathOperator::Subtraction)
    } else if symbol == '*' {
        Ok(MathOperator::Multiplication)
    } else {
        Err(EvalError::UnsupportedOperator)
    }
}

/// One argument position of an operation: a literal, a nested operation
/// owned by its parent, or a syntactically missing operand.
#[derive(Debug, PartialEq, Eq)]
pub enum ArgumentType {
    Number(i32),
    NestedOperation(Box<Operation>),
    Absent,
}

/// An operator together with its two argument positions; nested operations
/// form a tree whose depth equals the parenthesis nesting of the source
/// text.
#[derive(Debug, PartialEq, Eq)]
pub struct Operation {
    pub operator: MathOperator,
    pub argument1: ArgumentType,
    pub argument2: ArgumentType,
}

/// What an operator does with the values of its two arguments.
pub open spec fn spec_apply(op: MathOperator, n1: int, n2: int) -> int {
    match op {
        MathOperator::Addition => n1 + n2,
        MathOperator::Subtraction => n1 - n2,
        MathOperator::Multiplication => n1 * n2,
    }
}

/// The mathematical value of an argument: a literal is itself, a nested
/// operation is evaluated, and a missing operand always fails.
pub open spec fn spec_arg_val(a: ArgumentType) -> Result<int, EvalError>
    decreases a,
{
    match a {
        ArgumentType::Number(n) => Ok(n as int),
        ArgumentType::NestedOperation(op) => spec_op_val(*op),
        ArgumentType::Absent => Err(EvalError::EvaluateOnAbsent),
    }
}

/// The mathematical value of an operation. The first argument's failure is
/// wrapped and passed on; a failure of the second argument is wrapped and
/// passed on for addition and multiplication, while subtraction instead
/// falls back to negating the first argument's value.
pub open spec fn spec_op_val(o: Operation) -> Result<int, EvalError>
    decreases o,
{
    match spec_arg_val(o.argument1) {
        Err(e) => Err(
            EvalError::Argument1Failed { operator: o.operator, cause: Box::new(e) },
        ),
        Ok(n1) => match spec_arg_val(o.argument2) {
            Ok(n2) => Ok(spec_apply(o.operator, n1, n2)),
            Err(e) => if o.operator is Subtraction {
                Ok(-n1)
            } else {
                Err(EvalError::Argument2Failed { operator: o.operator, cause: Box::new(e) })
            },
        },
    }
}

/// The value lies within the 64-bit signed range.
pub open spec fn spec_in_i64(v: int) -> bool {
    i64::MIN <= v <= i64::MAX
}

/// Every arithmetic step that evaluating the argument performs stays within
/// the 64-bit signed range.
pub open spec fn spec_arg_bounded(a: ArgumentType) -> bool
    decreases a,
{
    match a {
        ArgumentType::Number(_) => true,
        ArgumentType::NestedOperation(op) => spec_op_bounded(*op),
        ArgumentType::Absent => true,
    }
}

/// Every arithmetic step that evaluating the operation performs stays within
/// the 64-bit signed range.
pub open spec fn spec_op_bounded(o: Operation) -> bool
    decreases o,
{
    &&& spec_arg_bounded(o.argument1)
    &&& (spec_arg_val(o.argument1) matches Ok(n1) ==> {
        &&& spec_arg_bounded(o.argument2)
        &&& (match spec_arg_val(o.argument2) {
            Ok(n2) => spec_in_i64(spec_apply(o.operator, n1, n2)),
            Err(_) => o.operator is Subtraction ==> spec_in_i64(-n1),
        })
    })
}

/// The runtime result agrees with the mathematical one: same value on
/// success, same error on failure.
pub open spec fn spec_result_agrees(r: Result<i64, EvalError>, v: Result<int, EvalError>) -> bool {
    match r {
        Ok(n) => v matches Ok(m) && n as int == m,
        Err(e) => v matches Err(f) && e == f,
    }
}

impl ArgumentType {
    /// Evaluates the argument with overflow checking: `None` exactly when
    /// some arithmetic step leaves the 64-bit range, otherwise the value or
    /// failure of the argument.
    pub fn try_evaluate(&self) -> (r: Option<Result<i64, EvalError>>)
        ensures
            r is Some <==> spec_arg_bounded(*self),
            r matches Some(v) ==> spec_result_agrees(v, spec_arg_val(*self)),
        decreases *self,
    {
        match self {
            ArgumentType::Number(n) => Some(Ok(*n as i64)),
            ArgumentType::NestedOperation(op) => op.try_evaluate(),
            ArgumentType::Absent => Some(Err(EvalError::EvaluateOnAbsent)),
        }
    }

    /// Evaluates an argument that is known to stay within the 64-bit range.
    pub fn evaluate(&self) -> (r: Result<i64, EvalError>)
        requires
            spec_arg_bounded(*self),
        ensures
            spec_result_agrees(r, spec_arg_val(*self)),
    {
        match self.try_evaluate() {
            Some(r) => r,
            None => vstd::pervasive::unreached(),
        }
    }
}

impl Operation {
    /// Evaluates the operation with overflow checking: `None` exactly when
    /// some arithmetic step leaves the 64-bit range, otherwise the value or
    /// failure of the operation.
    pub fn try_evaluate(&self) -> (r: Option<Result<i64, EvalError>>)
        ensures
            r is Some <==> spec_op_bounded(*self),
            r matches Some(v) ==> spec_result_agrees(v, spec_op_val(*self)),
        decreases *self,
    {
        let n1 = match self.argument1.try_evaluate() {
            None => {
                return None;
            },
            Some(Err(e)) => {
                return Some(
                    Err(EvalError::Argument1Failed { operator: self.operator, cause: Box::new(e) }),
                );
            },
            Some(Ok(n1)) => n1,
        };
        let r2 = self.argument2.try_evaluate();
        match self.operator {
            MathOperator::Addition => match r2 {
                None => None,
                Some(Ok(n2)) => {
                    let sum: i128 = n1 as i128 + n2 as i128;
                    if i64::MIN as i128 <= sum && sum <= i64::MAX as i128 {
                        Some(Ok(sum as i64))
                    } else {
                        None
                    }
                },
                Some(Err(e)) => Some(
                    Err(EvalError::Argument2Failed { operator: self.operator, cause: Box::new(e) }),
                ),
            },
            MathOperator::Subtraction => match r2 {
                None => None,
                Some(Ok(n2)) => {
                    let diff: i128 = n1 as i128 - n2 as i128;
                    if i64::MIN as i128 <= diff && diff <= i64::MAX as i128 {
                        Some(Ok(diff as i64))
                    } else {
                        None
                    }
                },
                Some(Err(_)) => {
                    if n1 == i64::MIN {
                        None
                    } else {
                        Some(Ok(-n1))
                    }
                },
            },
            MathOperator::Multiplication => match r2 {
                None => None,
                Some(Ok(n2)) => {
                    proof {
                        assert(-0x4000_0000_0000_0000_0000_0000_0000_0000 <= n1 as int * n2 as int
                            <= 0x4000_0000_0000_0000_0000_0000_0000_0000) by (nonlinear_arith)
                            requires
                                -0x8000_0000_0000_0000 <= n1 as int <= 0x7fff_ffff_ffff_ffff,
                                -0x8000_0000_0000_0000 <= n2 as int <= 0x7fff_ffff_ffff_ffff,
                        ;
                    }
                    let prod: i128 = n1 as i128 * n2 as i128;
                    if i64::MIN as i128 <= prod && prod <= i64::MAX as i128 {
                        Some(Ok(prod as i64))
                    } else {
                        None
                    }
                },
                Some(Err(e)) => Some(
                    Err(EvalError::Argument2Failed { operator: self.operator, cause: Box::new(e) }),
                ),
            },
        }
    }

    /// Rebuilds the operation denoted by a token range: the operator stands
    /// at index 1, the first argument starts at index 3, and the argument
    /// boundaries are found by the nesting and space scan.
    pub fn build_operation_tree(operation_by_tokens: &[Token]) -> (r: Result<Operation, EvalError>)
        ensures
            r == spec_build(token_views(operation_by_tokens@)),
        decreases operation_by_tokens@.len(), 1int,
    {
        let ghost ts = token_views(operation_by_tokens@);
        let n = operation_by_tokens.len();
        if n < 2 {
            return Err(EvalError::MalformedArguments);
        }
        let (end_index_arg1, start_index_arg2) = match scan_boundaries(operation_by_tokens) {
            Ok(p) => p,
            Err(e) => {
                return Err(e);
            },
        };
        let operator = match &operation_by_tokens[1] {
            Token::Operator(op) => match MathOperator::from(*op) {
                Ok(o) => o,
                Err(e) => {
                    return Err(e);
                },
            },
            _ => {
                return Err(EvalError::OperatorNotFound);
            },
        };
        let argument1 = match build_argument(operation_by_tokens, 3, end_index_arg1) {
            Ok(a) => a,
            Err(e) => {
                return Err(e);
            },
        };
        let argument2 = if start_index_arg2 == 0 {
            ArgumentType::Absent
        } else {
            match build_argument(operation_by_tokens, start_index_arg2, n - 2) {
                Ok(a) => a,
                Err(e) => {
                    return Err(e);
                },
            }
        };
        Ok(Operation { operator, argument1, argument2 })
    }

    /// Evaluates an operation that is known to stay within the 64-bit range.
    pub fn evaluate(&self) -> (r: Result<i64, EvalError>)
        requires
            spec_op_bounded(*self),
        ensures
            spec_result_agrees(r, spec_op_val(*self)),
    {
        match self.try_evaluate() {
            Some(r) => r,
            None => vstd::pervasive::unreached(),
        }
    }
}

/// The boundary scan of the tree builder, from token `i` onward with the
/// nesting and same-level space counts seen so far. It yields the index just
/// before the second same-level space together with the index just after it
/// (the two-operand form), or the index just before the space at which the
/// nesting returned to zero with sentinel 0 for the second argument (the
/// one-operand form), or the sentinel pair `(0, 0)` when no boundary is
/// found; a closing parenthesis below nesting zero is malformed.
pub open spec fn spec_scan(ts: Seq<TokenView>, i: int, nesting: int, spaces: int) -> Result<
    (int, int),
    EvalError,
>
    decreases ts.len() - i,
{
    if i < 0 || i >= ts.len() {
        Ok((0, 0))
    } else {
        let nesting2 = match ts[i] {
            TokenView::L => nesting + 1,
            TokenView::R => nesting - 1,
            _ => nesting,
        };
        let spaces2 = if ts[i] is Space && nesting2 == 1 {
            spaces + 1
        } else {
            spaces
        };
        if nesting2 < 0 {
            Err(EvalError::MalformedArguments)
        } else if nesting2 == 1 && spaces2 == 2 {
            Ok((i - 1, i + 1))
        } else if nesting2 == 0 && spaces2 == 1 {
            Ok((i - 1, 0))
        } else {
            spec_scan(ts, i + 1, nesting2, spaces2)
        }
    }
}

/// The operation denoted by a token range, or the error that rebuilding it
/// reports: `MalformedArguments` whenever the token positions are
/// inconsistent with the expected structure.
pub open spec fn spec_build(ts: Seq<TokenView>) -> Result<Operation, EvalError>
    decreases ts.len(), 1int,
{
    if ts.len() < 2 {
        Err(EvalError::MalformedArguments)
    } else {
        match spec_scan(ts, 0, 0, 0) {
            Err(e) => Err(e),
            Ok((end1, start2)) => match ts[1] {
                TokenView::Op(sym) => match spec_operator_from(sym) {
                    Err(e) => Err(e),
                    Ok(operator) => match spec_build_argument(ts, 3, end1) {
                        Err(e) => Err(e),
                        Ok(argument1) => if start2 == 0 {
                            Ok(Operation { operator, argument1, argument2: ArgumentType::Absent })
                        } else {
                            match spec_build_argument(ts, start2, ts.len() - 2) {
                                Err(e) => Err(e),
                                Ok(argument2) => Ok(Operation { operator, argument1, argument2 }),
                            }
                        },
                    },
                },
                _ => Err(EvalError::OperatorNotFound),
            },
        }
    }
}

/// One argument position: a left parenthesis opens a nested operation built
/// from the tokens up to `end`, a number token is read as a 32-bit literal,
/// and anything else stands for a missing operand.
pub open spec fn spec_build_argument(ts: Seq<TokenView>, start: int, end: int) -> Result<
    ArgumentType,
    EvalError,
>
    decreases ts.len(), 0int,
{
    if start < 0 || start >= ts.len() {
        Err(EvalError::MalformedArguments)
    } else {
        match ts[start] {
            TokenView::L => if 1 <= start && start <= end + 1 && end + 1 <= ts.len() {
                match spec_build(ts.subrange(start, end + 1)) {
                    Ok(op) => Ok(ArgumentType::NestedOperation(Box::new(op))),
                    Err(e) => Err(e),
                }
            } else {
                Err(EvalError::MalformedArguments)
            },
            TokenView::Num(s) => if spec_parses_as_i32(s) {
                Ok(ArgumentType::Number(spec_num_val(s) as i32))
            } else {
                Err(EvalError::MalformedArguments)
            },
            _ => Ok(ArgumentType::Absent),
        }
    }
}

/// Runs the boundary scan over a token slice.
fn scan_boundaries(tokens: &[Token]) -> (r: Result<(usize, usize), EvalError>)
    ensures
        match r {
            Ok(p) => spec_scan(token_views(tokens@), 0, 0, 0) == Ok::<(int, int), EvalError>(
                (p.0 as int, p.1 as int),
            ),
            Err(e) => spec_scan(token_views(tokens@), 0, 0, 0) == Err::<(int, int), EvalError>(e),
        },
{
    let ghost ts = token_views(tokens@);
    let n = tokens.len();
    let mut level_of_nesting: usize = 0;
    let mut number_of_spaces: usize = 0;
    let mut i: usize = 0;
    while i < n
        invariant
            0 <= i <= n,
            n == ts.len(),
            ts == token_views(tokens@),
            level_of_nesting as int <= i,
            number_of_spaces <= 1,
            number_of_spaces as int <= i,
            spec_scan(ts, i as int, level_of_nesting as int, number_of_spaces as int)
                == spec_scan(ts, 0, 0, 0),
        decreases n - i,
    {
        proof {
            assert(ts[i as int] == tokens@[i as int]@);
        }
        let ghost pre_spaces = number_of_spaces;
        match &tokens[i] {
            Token::ParenthesisL => {
                level_of_nesting += 1;
            },
            Token::ParenthesisR => {
                if level_of_nesting == 0 {
                    return Err(EvalError::MalformedArguments);
                }
                level_of_nesting -= 1;
            },
            Token::Space => {
                if level_of_nesting == 1 {
                    number_of_spaces += 1;
                }
            },
            _ => (),
        }
        if level_of_nesting == 1 && number_of_spaces == 2 {
            return Ok((i - 1, i + 1));
        } else if level_of_nesting == 0 && number_of_spaces == 1 {
            proof {
                assert(number_of_spaces == pre_spaces);
                assert(i >= 1);
            }
            return Ok((i - 1, 0));
        }
        i += 1;
    }
    Ok((0, 0))
}

/// Rebuilds one argument of an operation from its token range.
fn build_argument(tokens: &[Token], start: usize, end: usize) -> (r: Result<
    ArgumentType,
    EvalError,
>)
    ensures
        r == spec_build_argument(token_views(tokens@), start as int, end as int),
    decreases tokens@.len(), 0int,
{
    let n = tokens.len();
    if start >= n {
        return Err(EvalError::MalformedArguments);
    }
    proof {
        assert(token_views(tokens@)[start as int] == tokens@[start as int]@);
    }
    match &tokens[start] {
        Token::ParenthesisL => {
            if 1 <= start && start - 1 <= end && end < n {
                let sub = slice_subrange(tokens, start, end + 1);
                proof {
                    assert(token_views(sub@) =~= token_views(tokens@).subrange(
                        start as int,
                        end + 1 as int,
                    ));
                }
                match Operation::build_operation_tree(sub) {
                    Ok(op) => Ok(ArgumentType::NestedOperation(Box::new(op))),
                    Err(e) => Err(e),
                }
            } else {
                Err(EvalError::MalformedArguments)
            }
        },
        Token::Number(s) => match parse_i32(s) {
            Some(v) => Ok(ArgumentType::Number(v)),
            None => Err(EvalError::MalformedArguments),
        },
        _ => Ok(ArgumentType::Absent),
    }
}

} // verus!
