//! Lexical tokens and the mathematical model of tokenization.

use vstd::prelude::*;
use crate::errors::EvalError;

verus! {

/// One lexical token of an expression line. Contiguous letters merge into a
/// single `Function` token and contiguous digits into a single `Number`
/// token; every other accepted character stands for exactly one token.
#[derive(Debug, Clone, PartialEq, Eq)]
pub enum Token {
    ParenthesisL,
    ParenthesisR,
    Function(Vec<char>),
    Space,
    Operator(char),
    Number(Vec<char>),
}

/// The mathematical shape of a token: its text as a sequence of characters.
#[verifier::ext_equal]
pub enum TokenView {
    L,
    R,
    Func(Seq<char>),
    Space,
    Op(char),
    Num(Seq<char>),
}

impl View for Token {
    type V = TokenView;

    open spec fn view(&self) -> TokenView {
        match self {
            Token::ParenthesisL => TokenView::L,
            Token::ParenthesisR => TokenView::R,
            Token::Function(s) => TokenView::Func(s@),
            Token::Space => TokenView::Space,
            Token::Operator(c) => TokenView::Op(*c),
            Token::Number(s) => TokenView::Num(s@),
        }
    }
}

impl DeepView for Token {
    type V = TokenView;

    open spec fn deep_view(&self) -> TokenView {
        self.view()
    }
}

/// The views of a sequence of tokens.
pub open spec fn token_views(ts: Seq<Token>) -> Seq<TokenView> {
    ts.map_values(|t: Token| t@)
}

/// ASCII letters: the only characters accepted into a function name.
pub open spec fn spec_is_letter(c: char) -> bool {
    (97 <= c as u32 && c as u32 <= 122) || (65 <= c as u32 && c as u32 <= 90)
}

/// ASCII decimal digits.
pub open spec fn spec_is_digit(c: char) -> bool {
    48 <= c as u32 && c as u32 <= 57
}

/// The whole accepted alphabet: letters, digits, parentheses, the three
/// operator symbols and the space.
pub open spec fn spec_is_accepted(c: char) -> bool {
    ||| spec_is_letter(c)
    ||| spec_is_digit(c)
    ||| c == '('
    ||| c == ')'
    ||| c == '+'
    ||| c == '-'
    ||| c == '*'
    ||| c == ' '
}

/// Decides `spec_is_letter`.
pub fn is_letter(c: char) -> (r: bool)
    ensures
        r == spec_is_letter(c),
{
    let n = c as u32;
    (97 <= n && n <= 122) || (65 <= n && n <= 90)
}

/// Decides `spec_is_digit`.
pub fn is_digit(c: char) -> (r: bool)
    ensures
        r == spec_is_digit(c),
{
    let n = c as u32;
    48 <= n && n <= 57
}

impl Token {
    /// Appends a character to the text of a `Function` or `Number` token and
    /// leaves any other token unchanged.
    pub fn push(&mut self, character: char)
        ensures
            final(self)@ == spec_token_push(old(self)@, character),
    {
        match self {
            Token::Function(s) => { s.push(character); },
            Token::Number(s) => { s.push(character); },
            _ => (),
        }
    }

    /// Turns a digit into a negative number token seeded with that digit;
    /// any other character is outside the token's alphabet.
    pub fn create_negative_number(number: char) -> (r: Result<Token, EvalError>)
        ensures
            spec_is_digit(number) ==> (r matches Ok(t) && t@ == TokenView::Num(
                seq!['-', number],
            )),
            !spec_is_digit(number) ==> r == Err::<Token, EvalError>(
                EvalError::UnrecognizedSymbol(number),
            ),
    {
        if is_digit(number) {
            let mut text: Vec<char> = Vec::new();
            text.push('-');
            text.push(number);
            proof {
                assert(text@ =~= seq!['-', number]);
            }
            Ok(Token::Number(text))
        } else {
            Err(EvalError::UnrecognizedSymbol(number))
        }
    }
}

/// What `Token::push` does to a token's shape.
pub open spec fn spec_token_push(t: TokenView, character: char) -> TokenView {
    match t {
        TokenView::Func(s) => TokenView::Func(s.push(character)),
        TokenView::Num(s) => TokenView::Num(s.push(character)),
        _ => t,
    }
}

/// One step of tokenization: how one character extends the token sequence
/// built so far. Letters extend a trailing `Func` token or open a new one;
/// digits extend a trailing `Num` token, turn a trailing `-` operator into a
/// negative number, or open a new `Num` token; each remaining accepted
/// character stands for one token of its own; anything else is refused.
pub open spec fn spec_token_step(toks: Seq<TokenView>, c: char) -> Result<
    Seq<TokenView>,
    EvalError,
> {
    if spec_is_letter(c) {
        if toks.len() > 0 {
            match toks.last() {
                TokenView::Func(s) => Ok(
                    toks.update(toks.len() - 1, TokenView::Func(s.push(c))),
                ),
                _ => Ok(toks.push(TokenView::Func(seq![c]))),
            }
        } else {
            Ok(toks.push(TokenView::Func(seq![c])))
        }
    } else if spec_is_digit(c) {
        if toks.len() > 0 {
            match toks.last() {
                TokenView::Num(s) => Ok(toks.update(toks.len() - 1, TokenView::Num(s.push(c)))),
                TokenView::Op(o) => if o == '-' {
                    Ok(toks.update(toks.len() - 1, TokenView::Num(seq!['-', c])))
                } else {
                    Ok(toks.push(TokenView::Num(seq![c])))
                },
                _ => Ok(toks.push(TokenView::Num(seq![c]))),
            }
        } else {
            Ok(toks.push(TokenView::Num(seq![c])))
        }
    } else if c == '(' {
        Ok(toks.push(TokenView::L))
    } else if c == ')' {
        Ok(toks.push(TokenView::R))
    } else if c == '+' || c == '-' || c == '*' {
        Ok(toks.push(TokenView::Op(c)))
    } else if c == ' ' {
        Ok(toks.push(TokenView::Space))
    } else {
        Err(EvalError::UnrecognizedSymbol(c))
    }
}

/// Runs tokenization over the remaining characters `s`, starting from the
/// tokens `toks` built so far.
pub open spec fn spec_token_run(toks: Seq<TokenView>, s: Seq<char>) -> Result<
    Seq<TokenView>,
    EvalError,
>
    decreases s.len(),
{
    if s.len() == 0 {
        Ok(toks)
    } else {
        match spec_token_step(toks, s[0]) {
            Ok(next) => spec_token_run(next, s.drop_first()),
            Err(e) => Err(e),
        }
    }
}

/// The token sequence of a whole line, or the first unrecognized character.
pub open spec fn spec_tokenize(s: Seq<char>) -> Result<Seq<TokenView>, EvalError> {
    spec_token_run(Seq::empty(), s)
}

/// Appending a token appends its view.
pub proof fn lemma_token_views_push(s: Seq<Token>, t: Token)
    ensures
        token_views(s.push(t)) == token_views(s).push(t@),
{
    assert(token_views(s.push(t)) =~= token_views(s).push(t@));
}

/// Replacing the last token replaces the last view.
pub proof fn lemma_token_views_set_last(s: Seq<Token>, t: Token)
    requires
        s.len() > 0,
    ensures
        token_views(s.drop_last().push(t)) == token_views(s).update(s.len() - 1, t@),
{
    assert(token_views(s.drop_last().push(t)) =~= token_views(s).update(s.len() - 1, t@));
}

/// Tokenization of concatenated input runs the second part from wherever the
/// first part ended.
pub proof fn lemma_token_run_concat(toks: Seq<TokenView>, a: Seq<char>, b: Seq<char>)
    ensures
        spec_token_run(toks, a + b) == (match spec_token_run(toks, a) {
            Ok(mid) => spec_token_run(mid, b),
            Err(e) => Err(e),
        }),
    decreases a.len(),
{
    if a.len() == 0 {
        assert(a + b =~= b);
    } else {
        assert((a + b)[0] == a[0]);
        match spec_token_step(toks, a[0]) {
            Ok(next) => {
                assert((a + b).drop_first() =~= a.drop_first() + b);
                lemma_token_run_concat(next, a.drop_first(), b);
            },
            Err(e) => {},
        }
    }
}

/// A token run that succeeds saw only accepted characters.
pub proof fn lemma_token_run_accepted(toks: Seq<TokenView>, s: Seq<char>)
    requires
        spec_token_run(toks, s) is Ok,
    ensures
        forall|i: int| 0 <= i < s.len() ==> spec_is_accepted(#[trigger] s[i]),
    decreases s.len(),
{
    if s.len() > 0 {
        match spec_token_step(toks, s[0]) {
            Ok(next) => {
                lemma_token_run_accepted(next, s.drop_first());
                assert forall|i: int| 0 <= i < s.len() implies spec_is_accepted(
                    #[trigger] s[i],
                ) by {
                    if i > 0 {
                        assert(spec_is_accepted(s.drop_first()[i - 1]));
                        assert(s.drop_first()[i - 1] == s[i]);
                    }
                }
            },
            Err(e) => {},
        }
    }
}

/// A token run fails only on an unrecognized character.
pub proof fn lemma_token_run_err(toks: Seq<TokenView>, s: Seq<char>)
    requires
        spec_token_run(toks, s) is Err,
    ensures
        spec_token_run(toks, s)->Err_0 is UnrecognizedSymbol,
    decreases s.len(),
{
    if s.len() > 0 {
        match spec_token_step(toks, s[0]) {
            Ok(next) => {
                lemma_token_run_err(next, s.drop_first());
            },
            Err(e) => {},
        }
    }
}

} // verus!
