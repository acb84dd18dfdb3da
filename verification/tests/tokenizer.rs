use minimal_parser::errors::EvalError;
use minimal_parser::expr::SMTExpression;
use minimal_parser::token::Token;

fn chars(s: &str) -> Vec<char> {
    s.chars().collect()
}

#[test]
fn tokenize_simple_addition() {
    let tokens = SMTExpression::lex_lisp_expression(&String::from("(simplify (+ 1 2))")).unwrap();
    let expected = vec![
        Token::ParenthesisL,
        Token::Function(chars("simplify")),
        Token::Space,
        Token::ParenthesisL,
        Token::Operator('+'),
        Token::Space,
        Token::Number(chars("1")),
        Token::Space,
        Token::Number(chars("2")),
        Token::ParenthesisR,
        Token::ParenthesisR,
    ];
    assert_eq!(tokens, expected);
}

#[test]
fn tokenize_negative_literal() {
    let tokens = SMTExpression::lex_lisp_expression(&String::from("(+ -52 3)")).unwrap();
    let expected = vec![
        Token::ParenthesisL,
        Token::Operator('+'),
        Token::Space,
        Token::Number(chars("-52")),
        Token::Space,
        Token::Number(chars("3")),
        Token::ParenthesisR,
    ];
    assert_eq!(tokens, expected);
}

#[test]
fn tokenize_digit_after_other_operator_starts_number() {
    // Only a `-` directly followed by a digit merges into a negative
    // literal; after any other operator the digit opens its own token.
    let tokens = SMTExpression::lex_lisp_expression(&String::from("(+1 2)")).unwrap();
    let expected = vec![
        Token::ParenthesisL,
        Token::Operator('+'),
        Token::Number(chars("1")),
        Token::Space,
        Token::Number(chars("2")),
        Token::ParenthesisR,
    ];
    assert_eq!(tokens, expected);
}

#[test]
fn tokenize_unrecognized_symbol() {
    let r = SMTExpression::lex_lisp_expression(&String::from("(simplify (+ 1 2#))"));
    assert!(matches!(r, Err(EvalError::UnrecognizedSymbol('#'))));
}

#[test]
fn tokenize_unrecognized_symbol_builds_nothing() {
    let r = SMTExpression::execute(&String::from("(simplify [+ 1 2])"));
    assert!(matches!(r, Err(EvalError::UnrecognizedSymbol('['))));
}

#[test]
fn create_negative_number_from_digit() {
    let t = Token::create_negative_number('7').unwrap();
    assert_eq!(t, Token::Number(chars("-7")));
}

#[test]
fn create_negative_number_rejects_letters() {
    let r = Token::create_negative_number('x');
    assert!(matches!(r, Err(EvalError::UnrecognizedSymbol('x'))));
}

#[test]
fn token_push_extends_function_and_number() {
    let mut f = Token::Function(chars("simpli"));
    f.push('f');
    assert_eq!(f, Token::Function(chars("simplif")));
    let mut n = Token::Number(chars("1"));
    n.push('2');
    assert_eq!(n, Token::Number(chars("12")));
    let mut s = Token::Space;
    s.push('x');
    assert_eq!(s, Token::Space);
}
