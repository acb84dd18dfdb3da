//! The expression driver: tokenize a line, locate the function and its
//! argument tokens, build the operation tree and evaluate it.

use vstd::prelude::*;
use vstd::string::StrSliceExecFns;
use crate::errors::EvalError;
use crate::numbers::{format_result, spec_render_result};
use crate::token::{
    is_digit, is_letter, lemma_token_views_push, lemma_token_views_set_last, spec_token_run,
    spec_token_step, spec_tokenize, token_views, Token, TokenView,
};
use crate::tree::{spec_build, spec_op_bounded, spec_op_val, Operation};

verus! {

/// The closed set of supported top-level functions.
#[derive(Debug, PartialEq, Eq)]
pub enum SMTFunction {
    Simplify,
}

/// One line's function together with the operation tree of its argument.
#[derive(Debug, PartialEq, Eq)]
pub struct SMTExpression {
    pub function: SMTFunction,
    pub operation_tree: Operation,
}

/// The characters of the only supported function name.
pub open spec fn spec_simplify_name() -> Seq<char> {
    seq!['s', 'i', 'm', 'p', 'l', 'i', 'f', 'y']
}

/// Locating the function and its arguments: the token at index 1 must be a
/// function token named `simplify`, and the argument tokens reach from index
/// 3 up to just before the line's closing parenthesis; any shorter token
/// sequence is malformed.
pub open spec fn spec_separate(ts: Seq<TokenView>) -> Result<Seq<TokenView>, EvalError> {
    if ts.len() < 2 {
        Err(EvalError::MalformedArguments)
    } else {
        match ts[1] {
            TokenView::Func(name) => if name == spec_simplify_name() {
                if ts.len() >= 4 {
                    Ok(ts.subrange(3, ts.len() - 1))
                } else {
                    Err(EvalError::MalformedArguments)
                }
            } else {
                Err(EvalError::UnsupportedFunction)
            },
            _ => Err(EvalError::MalformedArguments),
        }
    }
}

/// The value a whole line evaluates to, or the first error of its pipeline.
pub open spec fn spec_exec_val(s: Seq<char>) -> Result<int, EvalError> {
    match spec_tokenize(s) {
        Err(e) => Err(e),
        Ok(toks) => match spec_separate(toks) {
            Err(e) => Err(e),
            Ok(args) => match spec_build(args) {
                Err(e) => Err(e),
                Ok(op) => spec_op_val(op),
            },
        },
    }
}

/// The rendered output of a whole line, or the first error of its pipeline.
pub open spec fn spec_execute(s: Seq<char>) -> Result<Seq<char>, EvalError> {
    match spec_exec_val(s) {
        Ok(v) => Ok(spec_render_result(v)),
        Err(e) => Err(e),
    }
}

/// Processing the line performs no arithmetic step outside the 64-bit
/// signed range.
pub open spec fn spec_exec_bounded(s: Seq<char>) -> bool {
    match spec_tokenize(s) {
        Err(_) => true,
        Ok(toks) => match spec_separate(toks) {
            Err(_) => true,
            Ok(args) => match spec_build(args) {
                Err(_) => true,
                Ok(op) => spec_op_bounded(op),
            },
        },
    }
}

/// Decides whether a function token's text reads `simplify`.
fn is_simplify(name: &Vec<char>) -> (r: bool)
    ensures
        r == (name@ == spec_simplify_name()),
{
    if name.len() != 8 {
        proof {
            assert(name@ != spec_simplify_name());
        }
        return false;
    }
    let r = name[0] == 's' && name[1] == 'i' && name[2] == 'm' && name[3] == 'p' && name[4] == 'l'
        && name[5] == 'i' && name[6] == 'f' && name[7] == 'y';
    proof {
        if r {
            assert(name@ =~= spec_simplify_name());
        } else {
            assert(name@ != spec_simplify_name());
        }
    }
    r
}

impl SMTExpression {
    /// Tokenizes one expression line, or reports its first character
    /// outside the accepted alphabet.
    pub fn lex_lisp_expression(s: &String) -> (r: Result<Vec<Token>, EvalError>)
        ensures
            r matches Ok(tokens) ==> spec_tokenize(s@) == Ok::<Seq<TokenView>, EvalError>(
                token_views(tokens@),
            ),
            r matches Err(e) ==> spec_tokenize(s@) == Err::<Seq<TokenView>, EvalError>(e),
    {
        let st = s.as_str();
        let n = st.unicode_len();
        let mut input_tokens: Vec<Token> = Vec::new();
        proof {
            assert(token_views(input_tokens@) =~= Seq::<TokenView>::empty());
            assert(s@.skip(0) =~= s@);
        }
        let mut i: usize = 0;
        while i < n
            invariant
                0 <= i <= n,
                n == s@.len(),
                st@ == s@,
                spec_token_run(token_views(input_tokens@), s@.skip(i as int)) == spec_tokenize(s@),
            decreases n - i,
        {
            let c = st.get_char(i);
            let ghost pre = input_tokens@;
            let ghost pre_views = token_views(pre);
            let ghost rest = s@.skip(i as int);
            proof {
                assert(rest[0] == s@[i as int]);
                assert(rest.drop_first() =~= s@.skip(i as int + 1));
            }
            let k = input_tokens.len();
            // The shape of the last token decides how a letter or digit is
            // merged: 1 function, 2 number, 3 subtraction operator, 4 any
            // other token, 0 none.
            let mut last_kind: u8 = 0;
            if k > 0 {
                proof {
                    assert(pre_views[k - 1] == pre[k - 1]@);
                }
                match &input_tokens[k - 1] {
                    Token::Function(_) => {
                        last_kind = 1;
                    },
                    Token::Number(_) => {
                        last_kind = 2;
                    },
                    Token::Operator(o) => {
                        last_kind = if *o == '-' {
                            3
                        } else {
                            4
                        };
                    },
                    _ => {
                        last_kind = 4;
                    },
                }
            }
            if is_letter(c) {
                if last_kind == 1 {
                    let mut t = input_tokens.pop().unwrap();
                    t.push(c);
                    input_tokens.push(t);
                    proof {
                        lemma_token_views_set_last(pre, t);
                    }
                } else {
                    let mut text: Vec<char> = Vec::new();
                    text.push(c);
                    proof {
                        assert(text@ =~= seq![c]);
                    }
                    input_tokens.push(Token::Function(text));
                    proof {
                        lemma_token_views_push(pre, Token::Function(text));
                    }
                }
            } else if is_digit(c) {
                if last_kind == 2 {
                    let mut t = input_tokens.pop().unwrap();
                    t.push(c);
                    input_tokens.push(t);
                    proof {
                        lemma_token_views_set_last(pre, t);
                    }
                } else if last_kind == 3 {
                    let t = match Token::create_negative_number(c) {
                        Ok(t) => t,
                        Err(_) => vstd::pervasive::unreached(),
                    };
                    input_tokens.pop();
                    input_tokens.push(t);
                    proof {
                        lemma_token_views_set_last(pre, t);
                    }
                } else {
                    let mut text: Vec<char> = Vec::new();
                    text.push(c);
                    proof {
                        assert(text@ =~= seq![c]);
                    }
                    input_tokens.push(Token::Number(text));
                    proof {
                        lemma_token_views_push(pre, Token::Number(text));
                    }
                }
            } else if c == '(' {
                input_tokens.push(Token::ParenthesisL);
                proof {
                    lemma_token_views_push(pre, Token::ParenthesisL);
                }
            } else if c == ')' {
                input_tokens.push(Token::ParenthesisR);
                proof {
                    lemma_token_views_push(pre, Token::ParenthesisR);
                }
            } else if c == '+' || c == '-' || c == '*' {
                input_tokens.push(Token::Operator(c));
                proof {
                    lemma_token_views_push(pre, Token::Operator(c));
                }
            } else if c == ' ' {
                input_tokens.push(Token::Space);
                proof {
                    lemma_token_views_push(pre, Token::Space);
                }
            } else {
                return Err(EvalError::UnrecognizedSymbol(c));
            }
            proof {
                assert(token_views(input_tokens@) == spec_token_step(pre_views, c)->Ok_0);
                assert(spec_token_run(pre_views, rest) == spec_token_run(
                    token_views(input_tokens@),
                    s@.skip(i as int + 1),
                ));
            }
            i += 1;
        }
        proof {
            assert(s@.skip(n as int) =~= Seq::<char>::empty());
        }
        Ok(input_tokens)
    }

    /// Splits a tokenized line into its function and the token range of that
    /// function's argument.
    pub fn separate_function_and_arguments(lisp_expr_as_tokens: Vec<Token>) -> (r: Result<
        (SMTFunction, Vec<Token>),
        EvalError,
    >)
        ensures
            r matches Ok(p) ==> p.0 == SMTFunction::Simplify && spec_separate(
                token_views(lisp_expr_as_tokens@),
            ) == Ok::<Seq<TokenView>, EvalError>(token_views(p.1@)),
            r matches Err(e) ==> spec_separate(token_views(lisp_expr_as_tokens@)) == Err::<
                Seq<TokenView>,
                EvalError,
            >(e),
    {
        let ghost ts = token_views(lisp_expr_as_tokens@);
        let n = lisp_expr_as_tokens.len();
        if n < 2 {
            return Err(EvalError::MalformedArguments);
        }
        proof {
            assert(ts[1] == lisp_expr_as_tokens@[1]@);
        }
        match &lisp_expr_as_tokens[1] {
            Token::Function(f) => {
                if !is_simplify(f) {
                    return Err(EvalError::UnsupportedFunction);
                }
            },
            _ => {
                return Err(EvalError::MalformedArguments);
            },
        }
        if n < 4 {
            return Err(EvalError::MalformedArguments);
        }
        let mut function_arguments = lisp_expr_as_tokens;
        let mut rest = function_arguments.split_off(3);
        rest.truncate(n - 4);
        proof {
            assert(token_views(rest@) =~= ts.subrange(3, ts.len() - 1));
        }
        Ok((SMTFunction::Simplify, rest))
    }

    /// Evaluates the operation tree of the expression and renders the
    /// result, negative values in the LISP notation `(- N)`.
    pub fn evaluate_operation_tree(&self) -> (r: Result<String, EvalError>)
        requires
            spec_op_bounded(self.operation_tree),
        ensures
            spec_op_val(self.operation_tree) matches Ok(v) ==> (r matches Ok(out) && out@
                == spec_render_result(v)),
            spec_op_val(self.operation_tree) matches Err(e) ==> r == Err::<String, EvalError>(e),
    {
        match &self.function {
            SMTFunction::Simplify => {
                let number = match self.operation_tree.evaluate() {
                    Ok(v) => v,
                    Err(e) => {
                        return Err(e);
                    },
                };
                Ok(format_result(number))
            },
        }
    }

    /// Processes one line: tokenize, locate the function and its arguments,
    /// build the operation tree and evaluate it. The caller must know that
    /// no arithmetic step leaves the 64-bit range; `try_execute` decides
    /// that instead.
    pub fn execute(lisp_expr: &String) -> (r: Result<String, EvalError>)
        requires
            spec_exec_bounded(lisp_expr@),
        ensures
            spec_execute(lisp_expr@) matches Ok(out) ==> (r matches Ok(x) && x@ == out),
            spec_execute(lisp_expr@) matches Err(e) ==> r == Err::<String, EvalError>(e),
    {
        let lexed_lisp_expr = match Self::lex_lisp_expression(lisp_expr) {
            Ok(t) => t,
            Err(e) => {
                return Err(e);
            },
        };
        let (function, function_arguments) = match Self::separate_function_and_arguments(
            lexed_lisp_expr,
        ) {
            Ok(p) => p,
            Err(e) => {
                return Err(e);
            },
        };
        let operation_tree = match &function {
            SMTFunction::Simplify => match Operation::build_operation_tree(
                function_arguments.as_slice(),
            ) {
                Ok(t) => t,
                Err(e) => {
                    return Err(e);
                },
            },
        };
        let smt_expr = SMTExpression { function, operation_tree };
        smt_expr.evaluate_operation_tree()
    }

    /// Processes one line like `execute`, deciding at run time whether every
    /// arithmetic step stays within the 64-bit range: `None` exactly when
    /// one does not.
    pub fn try_execute(lisp_expr: &String) -> (r: Option<Result<String, EvalError>>)
        ensures
            r is Some <==> spec_exec_bounded(lisp_expr@),
            r matches Some(res) ==> (spec_execute(lisp_expr@) matches Ok(out) ==> (res matches Ok(x)
                && x@ == out)),
            r matches Some(res) ==> (spec_execute(lisp_expr@) matches Err(e) ==> res == Err::<
                String,
                EvalError,
            >(e)),
    {
        let lexed_lisp_expr = match Self::lex_lisp_expression(lisp_expr) {
            Ok(t) => t,
            Err(e) => {
                return Some(Err(e));
            },
        };
        let (function, function_arguments) = match Self::separate_function_and_arguments(
            lexed_lisp_expr,
        ) {
            Ok(p) => p,
            Err(e) => {
                return Some(Err(e));
            },
        };
        let operation_tree = match &function {
            SMTFunction::Simplify => match Operation::build_operation_tree(
                function_arguments.as_slice(),
            ) {
                Ok(t) => t,
                Err(e) => {
                    return Some(Err(e));
                },
            },
        };
        match operation_tree.try_evaluate() {
            None => None,
            Some(Err(e)) => Some(Err(e)),
            Some(Ok(v)) => Some(Ok(format_result(v))),
        }
    }
}

} // verus!
