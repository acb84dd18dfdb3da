//! General properties of the library, stated and proved over the same spec
//! functions that the executable functions' contracts use.

use vstd::prelude::*;
use crate::errors::EvalError;
use crate::expr::{spec_exec_val, spec_execute, spec_separate, spec_simplify_name};
use crate::numbers::{
    lemma_dec_str_digits, lemma_dec_str_val, spec_all_digits, spec_dec_str, spec_dec_val,
    spec_is_number_text, spec_num_val, spec_parses_as_i32, spec_render_result,
};
use crate::token::{
    lemma_token_run_accepted, lemma_token_run_concat, lemma_token_run_err, spec_is_accepted,
    spec_is_digit, spec_token_run, spec_token_step, spec_tokenize, TokenView,
};
use crate::tree::{
    spec_arg_val, spec_build, spec_build_argument, spec_op_val, spec_scan, ArgumentType,
    MathOperator, Operation,
};

verus! {

/// Swapping the two arguments of an operation whose arguments both evaluate
/// leaves the result of addition and multiplication unchanged, while for
/// subtraction it negates the result, which changes it exactly when the two
/// argument values differ.
pub proof fn lemma_swapped_arguments(o1: Operation, o2: Operation)
    requires
        o2.operator == o1.operator,
        o2.argument1 == o1.argument2,
        o2.argument2 == o1.argument1,
        spec_arg_val(o1.argument1) is Ok,
        spec_arg_val(o1.argument2) is Ok,
    ensures
        (o1.operator is Addition || o1.operator is Multiplication) ==> spec_op_val(o2)
            == spec_op_val(o1),
        o1.operator is Subtraction ==> spec_op_val(o1) == Ok::<int, EvalError>(
            spec_arg_val(o1.argument1)->Ok_0 - spec_arg_val(o1.argument2)->Ok_0,
        ),
        o1.operator is Subtraction ==> spec_op_val(o2) == Ok::<int, EvalError>(
            spec_arg_val(o1.argument2)->Ok_0 - spec_arg_val(o1.argument1)->Ok_0,
        ),
        o1.operator is Subtraction ==> ((spec_arg_val(o1.argument1) != spec_arg_val(o1.argument2))
            <==> spec_op_val(o2) != spec_op_val(o1)),
{
    let n1 = spec_arg_val(o1.argument1)->Ok_0;
    let n2 = spec_arg_val(o1.argument2)->Ok_0;
    if o1.operator is Multiplication {
        assert(n1 * n2 == n2 * n1) by (nonlinear_arith);
    }
}

/// An input holding any character outside the accepted alphabet fails
/// tokenization with `UnrecognizedSymbol`, and the whole pipeline passes
/// that error through: no operation tree is ever built from such a line.
pub proof fn lemma_unrecognized_symbol(s: Seq<char>)
    requires
        exists|i: int| 0 <= i < s.len() && !spec_is_accepted(#[trigger] s[i]),
    ensures
        spec_tokenize(s) is Err,
        spec_tokenize(s)->Err_0 is UnrecognizedSymbol,
        spec_execute(s) == Err::<Seq<char>, EvalError>(spec_tokenize(s)->Err_0),
        spec_exec_val(s) == Err::<int, EvalError>(spec_tokenize(s)->Err_0),
{
    if spec_tokenize(s) is Ok {
        lemma_token_run_accepted(Seq::empty(), s);
        assert(false);
    }
    lemma_token_run_err(Seq::empty(), s);
}

/// A run over digit characters followed by `tail` extends the trailing
/// number token by those digits and then goes on with `tail`.
proof fn lemma_token_run_digits(toks: Seq<TokenView>, m: Seq<char>, tail: Seq<char>)
    requires
        toks.len() > 0,
        toks.last() is Num,
        spec_all_digits(m),
    ensures
        spec_token_run(toks, m + tail) == spec_token_run(
            toks.update(toks.len() - 1, TokenView::Num(toks.last()->Num_0 + m)),
            tail,
        ),
    decreases m.len(),
{
    let p = toks.last()->Num_0;
    if m.len() == 0 {
        assert(p + m =~= p);
        assert(toks.update(toks.len() - 1, TokenView::Num(p)) =~= toks);
        assert(m + tail =~= tail);
    } else {
        let c = m[0];
        assert(spec_is_digit(c));
        assert((m + tail)[0] == c);
        let toks2 = toks.update(toks.len() - 1, TokenView::Num(p.push(c)));
        assert(spec_token_step(toks, c) == Ok::<Seq<TokenView>, EvalError>(toks2));
        assert((m + tail).drop_first() =~= m.drop_first() + tail);
        assert forall|i: int| 0 <= i < m.drop_first().len() implies spec_is_digit(
            #[trigger] m.drop_first()[i],
        ) by {
            assert(m.drop_first()[i] == m[i + 1]);
        }
        assert(toks2.last() == TokenView::Num(p.push(c)));
        lemma_token_run_digits(toks2, m.drop_first(), tail);
        assert(p.push(c) + m.drop_first() =~= p + m);
        assert(toks2.update(toks2.len() - 1, TokenView::Num(p.push(c) + m.drop_first()))
            =~= toks.update(toks.len() - 1, TokenView::Num(p + m)));
    }
}

/// One unfolding of a token run: when the character at `k` steps the tokens
/// to `next`, the run from `k` equals the run of `next` from `k + 1`.
proof fn lemma_run_step_at(toks: Seq<TokenView>, s: Seq<char>, k: int, next: Seq<TokenView>)
    requires
        0 <= k < s.len(),
        spec_token_step(toks, s[k]) == Ok::<Seq<TokenView>, EvalError>(next),
    ensures
        spec_token_run(toks, s.skip(k)) == spec_token_run(next, s.skip(k + 1)),
{
    assert(s.skip(k)[0] == s[k]);
    assert(s.skip(k).drop_first() =~= s.skip(k + 1));
}

/// The line `(simplify (- 0 N))` where `N` is the decimal text of the
/// magnitude of the negative value `v`.
pub open spec fn spec_round_trip_line(v: int) -> Seq<char> {
    seq!['(', 's', 'i', 'm', 'p', 'l', 'i', 'f', 'y', ' ', '(', '-', ' ', '0', ' '] + spec_dec_str(
        (-v) as nat,
    ) + seq![')', ')']
}

/// Round trip: a negative result `v` renders as `(- N)`; feeding the line
/// `(simplify (- 0 N))` back through the whole pipeline evaluates to the
/// same negative value, rendered again as `(- N)`. Values below the 32-bit
/// range are out: their `N` is no 32-bit literal.
pub proof fn lemma_round_trip(v: int)
    requires
        -0x7fff_ffff <= v <= -1,
    ensures
        spec_exec_val(spec_round_trip_line(v)) == Ok::<int, EvalError>(v),
        spec_execute(spec_round_trip_line(v)) == Ok::<Seq<char>, EvalError>(
            spec_render_result(v),
        ),
{
    let d = spec_dec_str((-v) as nat);
    lemma_dec_str_digits((-v) as nat);
    lemma_dec_str_val((-v) as nat);
    let prefix = seq!['(', 's', 'i', 'm', 'p', 'l', 'i', 'f', 'y', ' ', '(', '-', ' ', '0', ' '];
    let suffix = seq![')', ')'];
    let s = spec_round_trip_line(v);
    let toks0 = seq![
        TokenView::L,
        TokenView::Func(spec_simplify_name()),
        TokenView::Space,
        TokenView::L,
        TokenView::Op('-'),
        TokenView::Space,
        TokenView::Num(seq!['0']),
        TokenView::Space,
    ];
    // Tokenizing: the fixed prefix gives the eight leading tokens, one
    // character at a time.
    let t0 = Seq::<TokenView>::empty();
    let f1 = seq!['s'];
    let f2 = f1.push('i');
    let f3 = f2.push('m');
    let f4 = f3.push('p');
    let f5 = f4.push('l');
    let f6 = f5.push('i');
    let f7 = f6.push('f');
    let f8 = f7.push('y');
    let t1 = t0.push(TokenView::L);
    let t2 = t1.push(TokenView::Func(f1));
    let t3 = t2.update(1, TokenView::Func(f2));
    let t4 = t3.update(1, TokenView::Func(f3));
    let t5 = t4.update(1, TokenView::Func(f4));
    let t6 = t5.update(1, TokenView::Func(f5));
    let t7 = t6.update(1, TokenView::Func(f6));
    let t8 = t7.update(1, TokenView::Func(f7));
    let t9 = t8.update(1, TokenView::Func(f8));
    let t10 = t9.push(TokenView::Space);
    let t11 = t10.push(TokenView::L);
    let t12 = t11.push(TokenView::Op('-'));
    let t13 = t12.push(TokenView::Space);
    let t14 = t13.push(TokenView::Num(seq!['0']));
    let t15 = t14.push(TokenView::Space);
    assert(spec_token_step(t0, prefix[0]) == Ok::<Seq<TokenView>, EvalError>(t1));
    lemma_run_step_at(t0, prefix, 0, t1);
    assert(spec_token_step(t1, prefix[1]) == Ok::<Seq<TokenView>, EvalError>(t2));
    lemma_run_step_at(t1, prefix, 1, t2);
    assert(spec_token_step(t2, prefix[2]) == Ok::<Seq<TokenView>, EvalError>(t3));
    lemma_run_step_at(t2, prefix, 2, t3);
    assert(spec_token_step(t3, prefix[3]) == Ok::<Seq<TokenView>, EvalError>(t4));
    lemma_run_step_at(t3, prefix, 3, t4);
    assert(spec_token_step(t4, prefix[4]) == Ok::<Seq<TokenView>, EvalError>(t5));
    lemma_run_step_at(t4, prefix, 4, t5);
    assert(spec_token_step(t5, prefix[5]) == Ok::<Seq<TokenView>, EvalError>(t6));
    lemma_run_step_at(t5, prefix, 5, t6);
    assert(spec_token_step(t6, prefix[6]) == Ok::<Seq<TokenView>, EvalError>(t7));
    lemma_run_step_at(t6, prefix, 6, t7);
    assert(spec_token_step(t7, prefix[7]) == Ok::<Seq<TokenView>, EvalError>(t8));
    lemma_run_step_at(t7, prefix, 7, t8);
    assert(spec_token_step(t8, prefix[8]) == Ok::<Seq<TokenView>, EvalError>(t9));
    lemma_run_step_at(t8, prefix, 8, t9);
    assert(spec_token_step(t9, prefix[9]) == Ok::<Seq<TokenView>, EvalError>(t10));
    lemma_run_step_at(t9, prefix, 9, t10);
    assert(spec_token_step(t10, prefix[10]) == Ok::<Seq<TokenView>, EvalError>(t11));
    lemma_run_step_at(t10, prefix, 10, t11);
    assert(spec_token_step(t11, prefix[11]) == Ok::<Seq<TokenView>, EvalError>(t12));
    lemma_run_step_at(t11, prefix, 11, t12);
    assert(spec_token_step(t12, prefix[12]) == Ok::<Seq<TokenView>, EvalError>(t13));
    lemma_run_step_at(t12, prefix, 12, t13);
    assert(spec_token_step(t13, prefix[13]) == Ok::<Seq<TokenView>, EvalError>(t14));
    lemma_run_step_at(t13, prefix, 13, t14);
    assert(spec_token_step(t14, prefix[14]) == Ok::<Seq<TokenView>, EvalError>(t15));
    lemma_run_step_at(t14, prefix, 14, t15);
    assert(prefix.skip(0) =~= prefix);
    assert(prefix.skip(15) =~= Seq::<char>::empty());
    assert(spec_token_run(t15, prefix.skip(15)) == Ok::<Seq<TokenView>, EvalError>(t15));
    assert(t15 =~~= toks0);
    assert(spec_token_run(Seq::<TokenView>::empty(), prefix) == Ok::<Seq<TokenView>, EvalError>(
        toks0,
    ));
    assert(s =~= prefix + (d + suffix));
    lemma_token_run_concat(Seq::empty(), prefix, d + suffix);
    // The first digit of N opens a number token after the space.
    assert((d + suffix)[0] == d[0]);
    assert(spec_is_digit(d[0]));
    let toks1 = toks0.push(TokenView::Num(seq![d[0]]));
    assert(spec_token_step(toks0, d[0]) == Ok::<Seq<TokenView>, EvalError>(toks1));
    assert((d + suffix).drop_first() =~= d.drop_first() + suffix);
    // The remaining digits of N extend that number token.
    assert forall|i: int| 0 <= i < d.drop_first().len() implies spec_is_digit(
        #[trigger] d.drop_first()[i],
    ) by {
        assert(d.drop_first()[i] == d[i + 1]);
    }
    lemma_token_run_digits(toks1, d.drop_first(), suffix);
    let toks2 = toks1.update(toks1.len() - 1, TokenView::Num(seq![d[0]] + d.drop_first()));
    assert(seq![d[0]] + d.drop_first() =~= d);
    // The two closing parentheses.
    let toks3 = toks2.push(TokenView::R);
    assert(spec_token_step(toks2, suffix[0]) == Ok::<Seq<TokenView>, EvalError>(toks3));
    lemma_run_step_at(toks2, suffix, 0, toks3);
    let toks4 = toks3.push(TokenView::R);
    assert(spec_token_step(toks3, suffix[1]) == Ok::<Seq<TokenView>, EvalError>(toks4));
    lemma_run_step_at(toks3, suffix, 1, toks4);
    assert(suffix.skip(0) =~= suffix);
    assert(suffix.skip(2) =~= Seq::<char>::empty());
    assert(spec_token_run(toks2, suffix) == Ok::<Seq<TokenView>, EvalError>(toks4));
    assert(spec_tokenize(s) == Ok::<Seq<TokenView>, EvalError>(toks4));
    // Separating: the function token reads `simplify`; the argument tokens
    // are the seven tokens of `(- 0 N)`.
    assert(toks4.len() == 11);
    assert(toks4[1] == TokenView::Func(spec_simplify_name()));
    let args = seq![
        TokenView::L,
        TokenView::Op('-'),
        TokenView::Space,
        TokenView::Num(seq!['0']),
        TokenView::Space,
        TokenView::Num(d),
        TokenView::R,
    ];
    assert(toks4.subrange(3, 10) =~= args);
    assert(spec_separate(toks4) == Ok::<Seq<TokenView>, EvalError>(args));
    // The boundary scan: the second same-level space stands at index 4.
    assert(spec_scan(args, 0, 0, 0) == spec_scan(args, 1, 1, 0));
    assert(spec_scan(args, 1, 1, 0) == spec_scan(args, 2, 1, 0));
    assert(spec_scan(args, 2, 1, 0) == spec_scan(args, 3, 1, 1));
    assert(spec_scan(args, 3, 1, 1) == spec_scan(args, 4, 1, 1));
    assert(spec_scan(args, 4, 1, 1) == Ok::<(int, int), EvalError>((3, 5)));
    // Building: the literal 0 and the literal N.
    assert(seq!['0'].drop_last() =~= Seq::<char>::empty());
    assert(spec_dec_val(Seq::<char>::empty()) == 0);
    assert(spec_dec_val(seq!['0']) == 0);
    assert(spec_all_digits(seq!['0']));
    assert(spec_num_val(seq!['0']) == 0);
    assert(spec_parses_as_i32(seq!['0']));
    assert(spec_build_argument(args, 3, 3) == Ok::<ArgumentType, EvalError>(
        ArgumentType::Number(0),
    ));
    assert(d[0] != '-');
    assert(spec_is_number_text(d));
    assert(spec_num_val(d) == -v);
    assert(spec_parses_as_i32(d));
    assert(spec_build_argument(args, 5, 5) == Ok::<ArgumentType, EvalError>(
        ArgumentType::Number((-v) as i32),
    ));
    let op = Operation {
        operator: MathOperator::Subtraction,
        argument1: ArgumentType::Number(0),
        argument2: ArgumentType::Number((-v) as i32),
    };
    assert(spec_build(args) == Ok::<Operation, EvalError>(op));
    // Evaluating: 0 - N is v.
    assert(spec_arg_val(op.argument1) == Ok::<int, EvalError>(0));
    assert((-v) as i32 as int == -v);
    assert(spec_arg_val(op.argument2) == Ok::<int, EvalError>(-v));
    assert(spec_op_val(op) == Ok::<int, EvalError>(v));
}

} // verus!
