use minimal_parser::expr::SMTExpression;
use minimal_parser::generator::render_smt_expr;
use minimal_parser::tree::{ArgumentType, MathOperator, Operation};

#[test]
fn renders_each_operator() {
    assert_eq!(render_smt_expr(0, 1, 2), "(simplify (+ 1 2))");
    assert_eq!(render_smt_expr(1, 1, 2), "(simplify (- 1 2))");
    assert_eq!(render_smt_expr(2, 1, 2), "(simplify (* 1 2))");
}

#[test]
fn renders_negative_operands() {
    assert_eq!(render_smt_expr(0, -52, 3), "(simplify (+ -52 3))");
    assert_eq!(render_smt_expr(2, -2147483648, -1), "(simplify (* -2147483648 -1))");
}

#[test]
fn rendered_expression_evaluates() {
    let line = render_smt_expr(0, 12, -3);
    assert_eq!(SMTExpression::execute(&line).unwrap(), "9");
}

#[test]
fn evaluate_on_built_tree() {
    let op = Operation {
        operator: MathOperator::Subtraction,
        argument1: ArgumentType::Number(5),
        argument2: ArgumentType::Absent,
    };
    assert_eq!(op.evaluate().unwrap(), -5);
    let arg = ArgumentType::Number(7);
    assert_eq!(arg.evaluate().unwrap(), 7);
}

#[test]
fn try_evaluate_detects_unbounded_negation() {
    // (-2147483648 * 65536) * 65536 evaluates to the smallest 64-bit value;
    // negating it in the subtraction fallback leaves the 64-bit range.
    let to_min = Operation {
        operator: MathOperator::Multiplication,
        argument1: ArgumentType::NestedOperation(Box::new(Operation {
            operator: MathOperator::Multiplication,
            argument1: ArgumentType::Number(-2147483648),
            argument2: ArgumentType::Number(65536),
        })),
        argument2: ArgumentType::Number(65536),
    };
    assert_eq!(to_min.try_evaluate().unwrap().unwrap(), i64::MIN);
    let outer = Operation {
        operator: MathOperator::Subtraction,
        argument1: ArgumentType::NestedOperation(Box::new(to_min)),
        argument2: ArgumentType::Absent,
    };
    assert!(outer.try_evaluate().is_none());
}
