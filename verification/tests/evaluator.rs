use truent::evaluator::{EvaluationError, Evaluator, ExecutionContext, Value};
use truent::model::{ArithOp, BinaryOp, Expression, LogicalOp};
use truent::types::Type;

fn ctx(vars: &[(&str, Value)]) -> ExecutionContext {
    let mut c = ExecutionContext::new();
    for (k, v) in vars {
        c.state_vars.insert((*k).to_string(), v.clone());
    }
    c
}

fn arith(l: Expression, op: ArithOp, r: Expression) -> Expression {
    Expression::Arithmetic {
        left: Box::new(l),
        op,
        right: Box::new(r),
    }
}

fn var(n: &str) -> Expression {
    Expression::Var(n.to_string())
}

#[test]
fn test_value_type_detection() {
    assert_eq!(Value::Bool(true).get_type(), Type::Bool);
    assert_eq!(Value::U64(42).get_type(), Type::U64);
    assert_eq!(Value::I64(-42).get_type(), Type::I64);
}

#[test]
fn test_simple_evaluation() {
    let ctx = ExecutionContext::new();
    let evaluator = Evaluator::new(ctx);

    let expr = Expression::Boolean(true);
    let result = evaluator.evaluate(&expr);
    assert_eq!(result, Ok(Value::Bool(true)));
}

#[test]
fn test_state_variable_evaluation() {
    let mut ctx = ExecutionContext::new();
    ctx.set_state("balance".to_string(), Value::U64(100));

    let evaluator = Evaluator::new(ctx);
    let expr = Expression::Var("balance".to_string());

    let result = evaluator.evaluate(&expr);
    assert_eq!(result, Ok(Value::U64(100)));
}

#[test]
fn test_comparison_evaluation() {
    let ctx = ExecutionContext::new();
    let evaluator = Evaluator::new(ctx);

    let expr = Expression::BinaryOp {
        left: Box::new(Expression::Int(10)),
        op: BinaryOp::Lt,
        right: Box::new(Expression::Int(20)),
    };

    let result = evaluator.evaluate(&expr);
    assert_eq!(result, Ok(Value::Bool(true)));
}

#[test]
fn test_logical_short_circuit() {
    let ctx = ExecutionContext::new();
    let evaluator = Evaluator::new(ctx);

    let expr = Expression::Logical {
        left: Box::new(Expression::Boolean(false)),
        op: LogicalOp::And,
        right: Box::new(Expression::Var("undefined".to_string())),
    };

    let result = evaluator.evaluate(&expr);
    assert_eq!(result, Ok(Value::Bool(false)));
}

#[test]
fn evaluates_the_four_operators() {
    let e = Evaluator::new(ctx(&[("a", Value::U64(10)), ("b", Value::U64(3))]));
    for (op, want) in [
        (ArithOp::Add, 13u64),
        (ArithOp::Sub, 7),
        (ArithOp::Mul, 30),
        (ArithOp::Div, 3),
    ] {
        let got = e.evaluate(&arith(var("a"), op, var("b"))).expect("eval");
        assert_eq!(got, Value::U64(want), "for {op:?}");
    }
}

#[test]
fn multiplication_widens_instead_of_wrapping() {
    let big = 10_000_000_000_000_000_000u64;
    let e = Evaluator::new(ctx(&[("a", Value::U64(big)), ("b", Value::U64(3))]));
    let got = e
        .evaluate(&arith(var("a"), ArithOp::Mul, var("b")))
        .expect("eval");
    assert_eq!(got, Value::U128(big as u128 * 3));
}

#[test]
fn overflow_is_an_error_not_a_wrap() {
    let e = Evaluator::new(ctx(&[("a", Value::U128(u128::MAX)), ("b", Value::U128(2))]));
    assert!(matches!(
        e.evaluate(&arith(var("a"), ArithOp::Mul, var("b"))),
        Err(EvaluationError::Overflow)
    ));
}

#[test]
fn unsigned_underflow_is_an_error() {
    let e = Evaluator::new(ctx(&[("a", Value::U64(1)), ("b", Value::U64(2))]));
    assert!(matches!(
        e.evaluate(&arith(var("a"), ArithOp::Sub, var("b"))),
        Err(EvaluationError::Underflow)
    ));
}

#[test]
fn division_by_zero_is_an_error() {
    let e = Evaluator::new(ctx(&[("a", Value::U64(1)), ("b", Value::U64(0))]));
    assert!(matches!(
        e.evaluate(&arith(var("a"), ArithOp::Div, var("b"))),
        Err(EvaluationError::DivisionByZero)
    ));
}

#[test]
fn comparisons_work_across_numeric_widths() {
    let e = Evaluator::new(ctx(&[("wide", Value::U128(5)), ("narrow", Value::U64(6))]));
    let lt = Expression::BinaryOp {
        left: Box::new(var("wide")),
        op: BinaryOp::Lt,
        right: Box::new(var("narrow")),
    };
    assert_eq!(e.evaluate(&lt).expect("eval"), Value::Bool(true));

    let eq = Expression::BinaryOp {
        left: Box::new(var("wide")),
        op: BinaryOp::Eq,
        right: Box::new(Expression::Int(5)),
    };
    assert_eq!(e.evaluate(&eq).expect("eval"), Value::Bool(true));
}

#[test]
fn constant_product_invariant_evaluates() {
    let expr = Expression::BinaryOp {
        left: Box::new(arith(var("r_yes"), ArithOp::Mul, var("r_no"))),
        op: BinaryOp::Gte,
        right: Box::new(var("k")),
    };

    let holds = Evaluator::new(ctx(&[
        ("r_yes", Value::U64(1_000)),
        ("r_no", Value::U64(1_000)),
        ("k", Value::U64(1_000_000)),
    ]));
    assert_eq!(holds.evaluate(&expr).expect("eval"), Value::Bool(true));

    let violated = Evaluator::new(ctx(&[
        ("r_yes", Value::U64(900)),
        ("r_no", Value::U64(1_000)),
        ("k", Value::U64(1_000_000)),
    ]));
    assert_eq!(violated.evaluate(&expr).expect("eval"), Value::Bool(false));
}

#[test]
fn test_evaluate_literal() {
    let evaluator = Evaluator::new(ExecutionContext::new());
    let result = evaluator.evaluate(&Expression::Int(42));
    assert!(result.is_ok() || result.is_err(), "Should evaluate without panic");
    assert_eq!(result, Ok(Value::U64(42)));
}

#[test]
fn test_evaluate_boolean() {
    let evaluator = Evaluator::new(ExecutionContext::new());
    let result = evaluator.evaluate(&Expression::Boolean(true));
    assert!(result.is_ok() || result.is_err());
}

#[test]
fn test_evaluate_comparison() {
    let evaluator = Evaluator::new(ExecutionContext::new());
    let expr = Expression::BinaryOp {
        left: Box::new(Expression::Int(5)),
        op: BinaryOp::Gt,
        right: Box::new(Expression::Int(3)),
    };
    let result = evaluator.evaluate(&expr);
    assert!(result.is_ok() || result.is_err(), "Should evaluate comparison");
}

#[test]
fn test_evaluate_logical() {
    let evaluator = Evaluator::new(ExecutionContext::new());
    let expr = Expression::Logical {
        left: Box::new(Expression::Boolean(true)),
        op: LogicalOp::And,
        right: Box::new(Expression::Boolean(false)),
    };
    let result = evaluator.evaluate(&expr);
    assert!(result.is_ok() || result.is_err(), "Should evaluate logical AND");
}

#[test]
fn test_evaluate_logical_or() {
    let evaluator = Evaluator::new(ExecutionContext::new());
    let expr = Expression::Logical {
        left: Box::new(Expression::Boolean(true)),
        op: LogicalOp::Or,
        right: Box::new(Expression::Boolean(false)),
    };
    let result = evaluator.evaluate(&expr);
    assert!(result.is_ok() || result.is_err());
}

#[test]
fn test_evaluate_negation() {
    let evaluator = Evaluator::new(ExecutionContext::new());
    let expr = Expression::Not(Box::new(Expression::Boolean(true)));
    let result = evaluator.evaluate(&expr);
    assert!(result.is_ok() || result.is_err());
    assert_eq!(result, Ok(Value::Bool(false)));
}

#[test]
fn test_evaluate_determinism() {
    let expr = Expression::Int(42);
    let result1 = Evaluator::new(ExecutionContext::new()).evaluate(&expr);
    let result2 = Evaluator::new(ExecutionContext::new()).evaluate(&expr);
    assert_eq!(
        format!("{:?}", result1),
        format!("{:?}", result2),
        "Evaluator must be deterministic"
    );
}

#[test]
fn undefined_variable_is_reported_by_name() {
    let evaluator = Evaluator::new(ExecutionContext::new());
    assert_eq!(
        evaluator.evaluate(&var("missing")),
        Err(EvaluationError::UndefinedVariable("missing".to_string()))
    );
}

#[test]
fn true_or_anything_is_true() {
    let evaluator = Evaluator::new(ExecutionContext::new());
    let expr = Expression::Logical {
        left: Box::new(Expression::Boolean(true)),
        op: LogicalOp::Or,
        right: Box::new(var("undefined")),
    };
    assert_eq!(evaluator.evaluate(&expr), Ok(Value::Bool(true)));
}

#[test]
fn negative_literals_are_signed() {
    let evaluator = Evaluator::new(ExecutionContext::new());
    assert_eq!(evaluator.evaluate(&Expression::Int(-7)), Ok(Value::I64(-7)));
}

#[test]
fn signed_division_rounds_toward_zero() {
    let e = Evaluator::new(ctx(&[("a", Value::I64(-7)), ("b", Value::U64(2))]));
    assert_eq!(
        e.evaluate(&arith(var("a"), ArithOp::Div, var("b"))),
        Ok(Value::I64(-3))
    );
    assert_eq!(
        e.evaluate(&arith(var("a"), ArithOp::Sub, var("b"))),
        Ok(Value::I64(-9))
    );
}

#[test]
fn ordering_beyond_i128_is_a_type_error() {
    let e = Evaluator::new(ctx(&[("huge", Value::U128(u128::MAX)), ("small", Value::U64(1))]));
    let gt = Expression::BinaryOp {
        left: Box::new(var("huge")),
        op: BinaryOp::Gt,
        right: Box::new(var("small")),
    };
    assert_eq!(e.evaluate(&gt), Err(EvaluationError::TypeError));
    let eq = Expression::BinaryOp {
        left: Box::new(var("huge")),
        op: BinaryOp::Eq,
        right: Box::new(var("huge")),
    };
    assert_eq!(e.evaluate(&eq), Ok(Value::Bool(true)));
}

