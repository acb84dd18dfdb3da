//! Decimal number text: the value of a number token's text, a verified
//! parser for 32-bit literals, and rendering of integers back to text.

use vstd::prelude::*;
use vstd::string::StringExecFns;
use crate::token::{is_digit, spec_is_digit};

verus! {

/// The numeric value of one digit character.
pub open spec fn spec_digit_val(c: char) -> int {
    c as u32 - 48
}

/// Every character of `s` is a decimal digit.
pub open spec fn spec_all_digits(s: Seq<char>) -> bool {
    forall|i: int| 0 <= i < s.len() ==> spec_is_digit(#[trigger] s[i])
}

/// The value of a sequence of digit characters, most significant first.
pub open spec fn spec_dec_val(s: Seq<char>) -> int
    decreases s.len(),
{
    if s.len() == 0 {
        0
    } else {
        spec_dec_val(s.drop_last()) * 10 + spec_digit_val(s.last())
    }
}

/// The text matches `-?[0-9]+`: an optional leading minus followed by at
/// least one digit.
pub open spec fn spec_is_number_text(s: Seq<char>) -> bool {
    if s.len() == 0 {
        false
    } else if s[0] == '-' {
        s.len() >= 2 && spec_all_digits(s.skip(1))
    } else {
        spec_all_digits(s)
    }
}

/// The signed value denoted by a number text.
pub open spec fn spec_num_val(s: Seq<char>) -> int {
    if s.len() > 0 && s[0] == '-' {
        -spec_dec_val(s.skip(1))
    } else {
        spec_dec_val(s)
    }
}

/// The text parses as a 32-bit signed literal: it is a number text whose
/// value lies within the 32-bit range.
pub open spec fn spec_parses_as_i32(s: Seq<char>) -> bool {
    &&& spec_is_number_text(s)
    &&& -0x8000_0000 <= spec_num_val(s) <= 0x7fff_ffff
}

/// The value of a digit sequence is never negative.
pub proof fn lemma_dec_val_nonneg(s: Seq<char>)
    requires
        spec_all_digits(s),
    ensures
        spec_dec_val(s) >= 0,
    decreases s.len(),
{
    if s.len() > 0 {
        assert(spec_all_digits(s.drop_last()));
        lemma_dec_val_nonneg(s.drop_last());
    }
}

/// Extending a digit sequence by one digit multiplies its value by ten and
/// adds that digit.
pub proof fn lemma_dec_val_push(s: Seq<char>, c: char)
    ensures
        spec_dec_val(s.push(c)) == spec_dec_val(s) * 10 + spec_digit_val(c),
{
    assert(s.push(c).drop_last() =~= s);
    assert(s.push(c).last() == c);
}

/// The value of a digit sequence is at least the value of any of its
/// prefixes.
pub proof fn lemma_dec_val_prefix(s: Seq<char>, n: int)
    requires
        spec_all_digits(s),
        0 <= n <= s.len(),
    ensures
        spec_dec_val(s) >= spec_dec_val(s.take(n)),
    decreases s.len() - n,
{
    if n < s.len() {
        lemma_dec_val_prefix(s, n + 1);
        assert(s.take(n + 1).drop_last() =~= s.take(n));
        assert(s.take(n + 1).last() == s[n]);
        assert(spec_all_digits(s.take(n)));
        lemma_dec_val_nonneg(s.take(n));
        assert(spec_dec_val(s.take(n + 1)) == spec_dec_val(s.take(n)) * 10 + spec_digit_val(
            s[n],
        ));
    } else {
        assert(s.take(n) =~= s);
    }
}

/// Reads a signed 32-bit literal from the text of a number token. Returns
/// `None` exactly when the text is not a number text or its value does not
/// fit in 32 bits.
pub fn parse_i32(text: &Vec<char>) -> (r: Option<i32>)
    ensures
        r is Some <==> spec_parses_as_i32(text@),
        r matches Some(v) ==> v as int == spec_num_val(text@),
{
    let n = text.len();
    if n == 0 {
        return None;
    }
    let negative = text[0] == '-';
    let start: usize = if negative {
        1
    } else {
        0
    };
    if start >= n {
        return None;
    }
    let ghost digits = text@.skip(start as int);
    let mut acc: u64 = 0;
    let mut i: usize = start;
    while i < n
        invariant
            start <= i <= n,
            n == text@.len(),
            digits == text@.skip(start as int),
            start < n,
            negative == (text@[0] == '-'),
            start == (if negative { 1int } else { 0int }),
            spec_all_digits(text@.subrange(start as int, i as int)),
            acc == spec_dec_val(text@.subrange(start as int, i as int)),
            acc <= 0xffff_ffff * 10 + 9,
        decreases n - i,
    {
        let c = text[i];
        if !is_digit(c) {
            proof {
                if spec_is_number_text(text@) {
                    if negative {
                        assert(spec_is_digit(text@.skip(1)[i - 1]));
                        assert(text@.skip(1)[i - 1] == text@[i as int]);
                    } else {
                        assert(spec_is_digit(text@[i as int]));
                    }
                }
            }
            return None;
        }
        if acc > 0xffff_ffff {
            proof {
                let full = text@.subrange(start as int, n as int);
                let pre = text@.subrange(start as int, i as int);
                if spec_is_number_text(text@) {
                    assert(full =~= (if negative {
                        text@.skip(1)
                    } else {
                        text@
                    }));
                    assert(pre =~= full.take(i - start));
                    lemma_dec_val_prefix(full, i - start);
                    lemma_dec_val_nonneg(full);
                }
            }
            return None;
        }
        proof {
            let pre = text@.subrange(start as int, i as int);
            assert(text@.subrange(start as int, i as int + 1) =~= pre.push(text@[i as int]));
            lemma_dec_val_push(pre, text@[i as int]);
        }
        acc = acc * 10 + (c as u32 - 48) as u64;
        i += 1;
    }
    proof {
        assert(text@.subrange(start as int, n as int) =~= digits);
        if negative {
            assert(digits =~= text@.skip(1));
        } else {
            assert(digits =~= text@);
        }
    }
    if negative {
        if acc <= 0x8000_0000 {
            Some((-(acc as i64)) as i32)
        } else {
            None
        }
    } else {
        if acc <= 0x7fff_ffff {
            Some(acc as i32)
        } else {
            None
        }
    }
}

/// The digit character for a value below ten.
pub open spec fn spec_digit_char(d: int) -> char {
    if d == 0 {
        '0'
    } else if d == 1 {
        '1'
    } else if d == 2 {
        '2'
    } else if d == 3 {
        '3'
    } else if d == 4 {
        '4'
    } else if d == 5 {
        '5'
    } else if d == 6 {
        '6'
    } else if d == 7 {
        '7'
    } else if d == 8 {
        '8'
    } else {
        '9'
    }
}

/// The decimal text of a non-negative value, most significant digit first,
/// without a sign and without leading zeros (except for zero itself).
pub open spec fn spec_dec_str(m: nat) -> Seq<char>
    decreases m,
{
    if m < 10 {
        seq![spec_digit_char(m as int)]
    } else {
        spec_dec_str(m / 10).push(spec_digit_char((m % 10) as int))
    }
}

/// Rendered decimal text consists of digits only.
pub proof fn lemma_dec_str_digits(m: nat)
    ensures
        spec_dec_str(m).len() >= 1,
        spec_all_digits(spec_dec_str(m)),
    decreases m,
{
    if m >= 10 {
        lemma_dec_str_digits(m / 10);
        assert forall|i: int| 0 <= i < spec_dec_str(m).len() implies spec_is_digit(
            #[trigger] spec_dec_str(m)[i],
        ) by {
            if i < spec_dec_str(m).len() - 1 {
                assert(spec_dec_str(m)[i] == spec_dec_str(m / 10)[i]);
            }
        }
    }
}

/// A digit character reads back as the digit it was made from.
pub proof fn lemma_digit_char_val(d: int)
    requires
        0 <= d < 10,
    ensures
        spec_digit_val(spec_digit_char(d)) == d,
        spec_is_digit(spec_digit_char(d)),
{
}

/// Rendering and then reading a decimal text gives the value back.
pub proof fn lemma_dec_str_val(m: nat)
    ensures
        spec_dec_val(spec_dec_str(m)) == m,
    decreases m,
{
    if m < 10 {
        let s = spec_dec_str(m);
        assert(s.len() == 1);
        assert(s.drop_last() =~= Seq::<char>::empty());
        assert(s.last() == spec_digit_char(m as int));
        lemma_digit_char_val(m as int);
        assert(spec_dec_val(s) == spec_dec_val(s.drop_last()) * 10 + spec_digit_val(s.last()));
        assert(spec_dec_val(Seq::<char>::empty()) == 0);
    } else {
        let d = (m % 10) as int;
        lemma_dec_str_val(m / 10);
        lemma_dec_val_push(spec_dec_str(m / 10), spec_digit_char(d));
        lemma_digit_char_val(d);
        assert(spec_dec_str(m) == spec_dec_str(m / 10).push(spec_digit_char(d)));
        assert(spec_dec_val(spec_dec_str(m)) == (m / 10) * 10 + (m % 10));
        vstd::arithmetic::div_mod::lemma_fundamental_div_mod(m as int, 10);
        assert((m / 10) * 10 + (m % 10) == m);
    }
}

/// A one-character string slice for a digit value.
pub fn digit_str(d: u64) -> (r: &'static str)
    requires
        d < 10,
    ensures
        r@ == seq![spec_digit_char(d as int)],
{
    proof {
        reveal_strlit("0");
        reveal_strlit("1");
        reveal_strlit("2");
        reveal_strlit("3");
        reveal_strlit("4");
        reveal_strlit("5");
        reveal_strlit("6");
        reveal_strlit("7");
        reveal_strlit("8");
        reveal_strlit("9");
    }
    let r: &'static str = match d {
        0 => "0",
        1 => "1",
        2 => "2",
        3 => "3",
        4 => "4",
        5 => "5",
        6 => "6",
        7 => "7",
        8 => "8",
        _ => "9",
    };
    proof {
        assert(r@ =~= seq![spec_digit_char(d as int)]);
    }
    r
}

/// Appends the decimal text of `m` to `out`.
pub fn push_dec(out: &mut String, m: u64)
    ensures
        final(out)@ == old(out)@ + spec_dec_str(m as nat),
    decreases m,
{
    if m >= 10 {
        push_dec(out, m / 10);
    }
    let d = m % 10;
    out.append(digit_str(d));
    proof {
        if m < 10 {
            assert(old(out)@ + seq![spec_digit_char(m as int)] =~= old(out)@ + spec_dec_str(
                m as nat,
            ));
        } else {
            assert((old(out)@ + spec_dec_str((m / 10) as nat)) + seq![
                spec_digit_char((m % 10) as int),
            ] =~= old(out)@ + spec_dec_str(m as nat));
        }
    }
}

/// Appends the decimal text of a signed 32-bit value, with a leading minus
/// when it is negative.
pub fn push_int(out: &mut String, v: i32)
    ensures
        final(out)@ == old(out)@ + spec_int_text(v as int),
{
    if v < 0 {
        out.append("-");
        let m: u64 = (-(v as i64)) as u64;
        push_dec(out, m);
        proof {
            reveal_strlit("-");
            assert((old(out)@ + "-"@) + spec_dec_str((-(v as int)) as nat) =~= old(out)@
                + spec_int_text(v as int));
        }
    } else {
        push_dec(out, v as u64);
    }
}

/// The decimal text of a signed value: the magnitude's digits, preceded by a
/// minus sign when the value is negative.
pub open spec fn spec_int_text(v: int) -> Seq<char> {
    if v < 0 {
        seq!['-'] + spec_dec_str((-v) as nat)
    } else {
        spec_dec_str(v as nat)
    }
}

/// How an evaluation result is rendered: a negative value appears in the
/// same LISP notation as `(- N)` with `N` its magnitude, any other value as
/// its plain decimal digits.
pub open spec fn spec_render_result(v: int) -> Seq<char> {
    if v < 0 {
        seq!['(', '-', ' '] + spec_dec_str((-v) as nat) + seq![')']
    } else {
        spec_dec_str(v as nat)
    }
}

/// Renders an evaluation result in the notation of `spec_render_result`.
pub fn format_result(n: i64) -> (r: String)
    ensures
        r@ == spec_render_result(n as int),
{
    if n >= 0 {
        let mut out = String::new();
        push_dec(&mut out, n as u64);
        out
    } else {
        let mut out = String::from_str("(- ");
        let m: u64 = (-(n as i128)) as u64;
        push_dec(&mut out, m);
        out.append(")");
        proof {
            reveal_strlit("(- ");
            reveal_strlit(")");
            assert((("(- "@ + spec_dec_str((-(n as int)) as nat)) + ")"@) =~= spec_render_result(
                n as int,
            ));
        }
        out
    }
}

} // verus!
