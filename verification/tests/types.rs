use truent::model::{BinaryOp, Expression, LogicalOp};
use truent::type_checker::TypeChecker;
use truent::types::{Type, TypeError};

#[test]
fn test_type_names() {
    assert_eq!(Type::Bool.name(), "bool");
    assert_eq!(Type::U64.name(), "u64");
    assert_eq!(Type::Address.name(), "address");
}

#[test]
fn test_numeric_types() {
    assert!(Type::U64.is_numeric());
    assert!(Type::U128.is_numeric());
    assert!(Type::I64.is_numeric());
    assert!(!Type::Bool.is_numeric());
    assert!(!Type::Address.is_numeric());
}

#[test]
fn test_type_error_display() {
    let err = TypeError::UndefinedVariable("x".to_string());
    assert_eq!(err.to_string(), "undefined variable 'x'");

    let err = TypeError::BinaryOpTypeMismatch {
        left: Type::U64,
        op: "+".to_string(),
        right: Type::Bool,
    };
    assert!(err.to_string().contains("type mismatch"));
}

#[test]
fn test_register_state_var() {
    let mut checker = TypeChecker::new();
    checker.register_state_var("balance".to_string(), Type::U64);

    let expr = Expression::Var("balance".to_string());
    let result = checker.check_expr(&expr);
    assert!(result.is_ok());
    assert_eq!(result.unwrap().ty, Type::U64);
}

#[test]
fn test_undefined_variable() {
    let checker = TypeChecker::new();
    let expr = Expression::Var("unknown".to_string());
    let result = checker.check_expr(&expr);

    assert!(result.is_err());
    match result {
        Err(TypeError::UndefinedVariable(name)) => assert_eq!(name, "unknown"),
        _ => panic!("expected UndefinedVariable error"),
    }
}

#[test]
fn test_type_mismatch_comparison() {
    let mut checker = TypeChecker::new();
    checker.register_state_var("flag".to_string(), Type::Bool);
    checker.register_state_var("amount".to_string(), Type::U64);

    let expr = Expression::BinaryOp {
        left: Box::new(Expression::Var("flag".to_string())),
        op: BinaryOp::Eq,
        right: Box::new(Expression::Var("amount".to_string())),
    };

    let result = checker.check_expr(&expr);
    assert!(result.is_err());
}

#[test]
fn test_logical_requires_bool() {
    let mut checker = TypeChecker::new();
    checker.register_state_var("amount".to_string(), Type::U64);

    let expr = Expression::Logical {
        left: Box::new(Expression::Var("amount".to_string())),
        op: LogicalOp::And,
        right: Box::new(Expression::Boolean(true)),
    };

    let result = checker.check_expr(&expr);
    assert!(result.is_err());
}

#[test]
fn test_type_inference_number() {
    let checker = TypeChecker::new();
    let result = checker.check_expr(&Expression::Int(42));
    assert!(result.is_ok() || result.is_err());
}

#[test]
fn test_type_consistency_boolean() {
    let checker = TypeChecker::new();
    let result = checker.check_expr(&Expression::Boolean(true));
    assert!(result.is_ok() || result.is_err());
    assert_eq!(result.unwrap().ty, Type::Bool);
}

#[test]
fn test_type_consistency_logical_operations() {
    let checker = TypeChecker::new();
    let expr = Expression::Logical {
        left: Box::new(Expression::Boolean(true)),
        op: LogicalOp::And,
        right: Box::new(Expression::Boolean(false)),
    };
    let result = checker.check_expr(&expr);
    assert!(result.is_ok() || result.is_err());
}

#[test]
fn test_type_checker_determinism() {
    let expr = Expression::Boolean(true);
    let result1 = TypeChecker::new().check_expr(&expr);
    let result2 = TypeChecker::new().check_expr(&expr);
    assert_eq!(
        format!("{:?}", result1),
        format!("{:?}", result2),
        "Type checker must be deterministic"
    );
}

#[test]
fn test_type_checker_never_panics() {
    let checker = TypeChecker::new();
    let _ = checker.check_expr(&Expression::Int(1));
}

#[test]
fn test_type_consistency_int_operations() {
    let checker = TypeChecker::new();
    let expr = Expression::BinaryOp {
        left: Box::new(Expression::Int(5)),
        op: BinaryOp::Gt,
        right: Box::new(Expression::Int(3)),
    };
    let result = checker.check_expr(&expr);
    assert!(result.is_ok() || result.is_err());
    assert_eq!(result.unwrap().ty, Type::Bool);
}
