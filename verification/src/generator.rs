//! Rendering of simple single-operation expression lines, used to produce
//! syntactically valid input for exercising the parser. The caller supplies
//! the operator selector and the two operand values; rendering itself is
//! deterministic.

use vstd::prelude::*;
use vstd::string::StringExecFns;
use crate::numbers::{push_int, spec_int_text};

verus! {

/// The operator symbol picked by a selector: 0 is addition, 1 is
/// subtraction, anything else multiplication.
pub open spec fn spec_operator_symbol(selector: int) -> char {
    if selector == 0 {
        '+'
    } else if selector == 1 {
        '-'
    } else {
        '*'
    }
}

/// The text `(simplify (<op> <a> <b>))` for an operator symbol and two
/// operand values.
pub open spec fn spec_smt_expr_text(operator: char, a: int, b: int) -> Seq<char> {
    seq!['(', 's', 'i', 'm', 'p', 'l', 'i', 'f', 'y', ' ', '('] + seq![operator, ' ']
        + spec_int_text(a) + seq![' '] + spec_int_text(b) + seq![')', ')']
}

/// Renders a single-operation expression line for the selected operator and
/// the two operand values.
pub fn render_smt_expr(selector: u8, a: i32, b: i32) -> (r: String)
    ensures
        r@ == spec_smt_expr_text(spec_operator_symbol(selector as int), a as int, b as int),
{
    let mut out = String::from_str("(simplify (");
    let op: &'static str = match selector {
        0 => "+",
        1 => "-",
        _ => "*",
    };
    out.append(op);
    out.append(" ");
    push_int(&mut out, a);
    out.append(" ");
    push_int(&mut out, b);
    out.append("))");
    proof {
        reveal_strlit("(simplify (");
        reveal_strlit("+");
        reveal_strlit("-");
        reveal_strlit("*");
        reveal_strlit(" ");
        reveal_strlit("))");
        assert(out@ =~= spec_smt_expr_text(
            spec_operator_symbol(selector as int),
            a as int,
            b as int,
        ));
    }
    out
}

} // verus!
