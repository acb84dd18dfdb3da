use minimal_parser::errors::EvalError;
use minimal_parser::expr::SMTExpression;
use minimal_parser::token::Token;
use minimal_parser::tree::{MathOperator, Operation};

fn run(line: &str) -> Result<String, EvalError> {
    SMTExpression::execute(&String::from(line))
}

#[test]
fn unsupported_function() {
    let r = run("(foo (+ 1 2))");
    assert!(matches!(r, Err(EvalError::UnsupportedFunction)));
}

#[test]
fn operator_not_found() {
    let r = run("(simplify (1 2))");
    assert!(matches!(r, Err(EvalError::OperatorNotFound)));
}

#[test]
fn malformed_without_arguments() {
    let r = run("(simplify)");
    assert!(matches!(r, Err(EvalError::MalformedArguments)));
}

#[test]
fn empty_line_is_malformed() {
    let r = run("");
    assert!(matches!(r, Err(EvalError::MalformedArguments)));
}

#[test]
fn missing_second_operand_of_addition() {
    let r = run("(simplify (+ 1))");
    match r {
        Err(EvalError::Argument2Failed { operator, cause }) => {
            assert_eq!(operator, MathOperator::Addition);
            assert!(matches!(*cause, EvalError::EvaluateOnAbsent));
        },
        other => panic!("expected a wrapped absent-operand error, got {:?}", other),
    }
}

#[test]
fn subtraction_masks_failing_second_operand() {
    // The nested second operand builds but fails to evaluate; subtraction
    // falls back to negating the first.
    assert_eq!(run("(simplify (- 5 (+ 1)))").unwrap(), "(- 5)");
}

#[test]
fn malformed_nested_operand_propagates() {
    let r = run("(simplify (- 5 (+)))");
    assert!(matches!(r, Err(EvalError::MalformedArguments)));
}

#[test]
fn literal_out_of_32_bit_range_is_malformed() {
    let r = run("(simplify (+ 2147483648 0))");
    assert!(matches!(r, Err(EvalError::MalformedArguments)));
}

#[test]
fn unsupported_operator_from_symbol() {
    let r = MathOperator::from('/');
    assert!(matches!(r, Err(EvalError::UnsupportedOperator)));
    assert_eq!(MathOperator::from('+').unwrap(), MathOperator::Addition);
    assert_eq!(MathOperator::from('-').unwrap(), MathOperator::Subtraction);
    assert_eq!(MathOperator::from('*').unwrap(), MathOperator::Multiplication);
}

#[test]
fn unsupported_operator_in_build() {
    let tokens = vec![
        Token::ParenthesisL,
        Token::Operator('/'),
        Token::Space,
        Token::Number(vec!['1']),
        Token::ParenthesisR,
    ];
    let r = Operation::build_operation_tree(&tokens);
    assert!(matches!(r, Err(EvalError::UnsupportedOperator)));
}
