use minimal_parser::errors::EvalError;
use minimal_parser::expr::SMTExpression;

fn run(line: &str) -> Result<String, EvalError> {
    SMTExpression::execute(&String::from(line))
}

#[test]
fn addition() {
    assert_eq!(run("(simplify (+ 1 2))").unwrap(), "3");
}

#[test]
fn subtraction_negative_result() {
    assert_eq!(run("(simplify (- 5 8))").unwrap(), "(- 3)");
}

#[test]
fn subtraction_fallback_on_absent_second_operand() {
    assert_eq!(run("(simplify (- 5))").unwrap(), "(- 5)");
}

#[test]
fn nested_evaluation() {
    assert_eq!(run("(simplify (* (+ 1 2) (- 4 1)))").unwrap(), "9");
}

#[test]
fn division_is_not_supported() {
    let r = run("(simplify (/ 1 2))");
    assert!(matches!(r, Err(EvalError::UnrecognizedSymbol('/'))));
}

#[test]
fn swapping_changes_subtraction_only() {
    assert_eq!(run("(simplify (- 8 5))").unwrap(), "3");
    assert_eq!(run("(simplify (- 5 8))").unwrap(), "(- 3)");
    assert_eq!(run("(simplify (+ 5 8))").unwrap(), run("(simplify (+ 8 5))").unwrap());
    assert_eq!(run("(simplify (* 5 8))").unwrap(), run("(simplify (* 8 5))").unwrap());
}

#[test]
fn round_trip_of_negative_result() {
    assert_eq!(run("(simplify (- 5 8))").unwrap(), "(- 3)");
    assert_eq!(run("(simplify (- 0 3))").unwrap(), "(- 3)");
}

#[test]
fn zero_renders_plain() {
    assert_eq!(run("(simplify (+ 0 0))").unwrap(), "0");
}

#[test]
fn negative_literals() {
    assert_eq!(run("(simplify (+ -5 3))").unwrap(), "(- 2)");
    assert_eq!(run("(simplify (* -4 -4))").unwrap(), "16");
}

#[test]
fn largest_literals() {
    assert_eq!(run("(simplify (+ 2147483647 0))").unwrap(), "2147483647");
    assert_eq!(run("(simplify (+ -2147483648 0))").unwrap(), "(- 2147483648)");
}

#[test]
fn deeply_nested() {
    assert_eq!(run("(simplify (+ (* 2 5) (- (+ 23 (- 4 50)) 4)))").unwrap(), "(- 17)");
}

#[test]
fn try_execute_agrees_with_execute() {
    let r = SMTExpression::try_execute(&String::from("(simplify (+ 1 2))"));
    assert_eq!(r.unwrap().unwrap(), "3");
}

#[test]
fn try_execute_detects_overflow() {
    let r = SMTExpression::try_execute(
        &String::from("(simplify (* (* 2000000000 2000000000) 10))"),
    );
    assert!(r.is_none());
}

#[test]
fn try_execute_large_but_bounded() {
    let r = SMTExpression::try_execute(&String::from("(simplify (* 2000000000 2000000000))"));
    assert_eq!(r.unwrap().unwrap(), "4000000000000000000");
}
