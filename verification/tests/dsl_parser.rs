use truent::dsl_parser::{parse_invariant, InvariantParser};
use truent::error::InvarError;
use truent::model::{ArithOp, BinaryOp, Expression, LogicalOp};

fn expr(src: &str) -> Expression {
    parse_invariant(src)
        .unwrap_or_else(|e| panic!("failed to parse `{src}`: {e:?}"))
        .expression
}

#[test]
fn parser_test_parse_simple_invariant() {
    let input = r#"invariant BalancePositive { balance >= 0 }"#;
    let result = parse_invariant(input);
    assert!(result.is_ok());
    let inv = result.unwrap();
    assert_eq!(inv.name, "BalancePositive");
}

#[test]
fn test_parse_invariant_with_and() {
    let input = r#"invariant MultiCondition { balance >= 0 && total_supply > 0 }"#;
    assert!(parse_invariant(input).is_ok());
}

#[test]
fn test_invalid_invariant_no_expression() {
    let input = r#"invariant Empty { }"#;
    assert!(parse_invariant(input).is_err());
}

#[test]
fn parses_arithmetic_on_either_side_of_a_comparison() {
    assert_eq!(
        expr("invariant A { collateral >= user_yes + user_no }").to_string(),
        "(collateral >= (user_yes + user_no))"
    );
    assert_eq!(
        expr("invariant A { r_yes + r_no >= total_yes }").to_string(),
        "((r_yes + r_no) >= total_yes)"
    );
}

#[test]
fn all_four_operators_are_supported() {
    for (src, want) in [
        ("invariant A { a + b >= c }", "((a + b) >= c)"),
        ("invariant A { a - b >= c }", "((a - b) >= c)"),
        ("invariant A { a * b >= c }", "((a * b) >= c)"),
        ("invariant A { a / b >= c }", "((a / b) >= c)"),
    ] {
        assert_eq!(expr(src).to_string(), want, "for {src}");
    }
}

#[test]
fn multiplication_binds_tighter_than_addition() {
    assert_eq!(
        expr("invariant A { a * b + c >= d }").to_string(),
        "(((a * b) + c) >= d)"
    );
    assert_eq!(
        expr("invariant A { a + b * c >= d }").to_string(),
        "((a + (b * c)) >= d)"
    );
}

#[test]
fn parentheses_override_precedence() {
    assert_eq!(
        expr("invariant A { (a + b) * c >= d }").to_string(),
        "(((a + b) * c) >= d)"
    );
}

#[test]
fn arithmetic_composes_with_logical_operators() {
    assert_eq!(
        expr("invariant A { (a * b >= k) && (c > 0) }").to_string(),
        "(((a * b) >= k) && (c > 0))"
    );
}

#[test]
fn shipped_examples_parse() {
    expr("invariant TokenConservation { (balance_alice + balance_bob + balance_charlie) == total_supply }");
    expr("invariant LiquidityPreservation { (reserve_a > 0) && (reserve_b > 0) && ((reserve_a * reserve_b) >= constant_product) }");
}

#[test]
fn mod_test_parse_simple_invariant() {
    let input = r#"invariant BalanceConservation {
            true
        }"#;
    let result = InvariantParser::parse_invariant(input);
    assert!(result.is_ok(), "Parser should succeed on valid DSL");
}

#[test]
fn test_parse_with_context() {
    let input = r#"invariant VaultConservation {
            true
        }"#;
    assert!(InvariantParser::parse_invariant(input).is_ok(), "Parser should handle basics");
}

#[test]
fn test_parse_type_annotations() {
    let input = r#"invariant TypedBalance {
            true
        }"#;
    assert!(InvariantParser::parse_invariant(input).is_ok());
}

#[test]
fn test_parse_complex_expression() {
    let input = r#"invariant ComplexCondition {
            (balance > 0) && (balance <= max_balance)
        }"#;
    assert!(InvariantParser::parse_invariant(input).is_ok(), "Parser should handle boolean expressions");
}

#[test]
fn test_parse_with_aggregations() {
    let input = r#"invariant SumConservation {
            total_in == total_out
        }"#;
    assert!(InvariantParser::parse_invariant(input).is_ok());
}

#[test]
fn test_parse_error_missing_colon() {
    let input = r#"invariant balance_conservation"#;
    let result = InvariantParser::parse_invariant(input);
    assert!(result.is_err());
}

#[test]
fn test_parse_error_unclosed_brace() {
    let input = r#"invariant: test {
        not_closed"#;
    let result = InvariantParser::parse_invariant(input);
    assert!(result.is_err());
}

#[test]
fn test_parse_determinism() {
    let input = r#"invariant: deterministic_test
        true"#;
    let result1 = InvariantParser::parse_invariant(input);
    let result2 = InvariantParser::parse_invariant(input);
    assert_eq!(format!("{:?}", result1), format!("{:?}", result2), "Parser must be deterministic");
}

#[test]
fn defaults_of_a_parsed_invariant() {
    let inv = parse_invariant("invariant Solvent (account, protocol) { assets >= liabilities }").unwrap();
    assert_eq!(inv.name, "Solvent");
    assert_eq!(inv.layers, vec!["account".to_string(), "protocol".to_string()]);
    assert_eq!(inv.severity, "medium");
    assert_eq!(inv.category, "general");
    assert!(inv.description.is_none());
    assert!(inv.is_always_true);
    assert!(inv.phases.is_empty());
}

#[test]
fn layer_qualified_variables_and_calls() {
    let e = expr("invariant A { account :: balance <= sum(balances, 1) }");
    match e {
        Expression::BinaryOp { left, op: BinaryOp::Lte, right } => {
            assert_eq!(
                *left,
                Expression::LayerVar { layer: "account".to_string(), var: "balance".to_string() }
            );
            match *right {
                Expression::FunctionCall { name, args } => {
                    assert_eq!(name, "sum");
                    assert_eq!(args, vec![Expression::Var("balances".to_string()), Expression::Int(1)]);
                }
                other => panic!("expected a call, got {other:?}"),
            }
        }
        other => panic!("unexpected {other:?}"),
    }
}

#[test]
fn literals_and_left_grouping() {
    assert_eq!(
        expr("invariant A { a || b && false || -12 < x }"),
        Expression::Logical {
            left: Box::new(Expression::Logical {
                left: Box::new(Expression::Var("a".to_string())),
                op: LogicalOp::Or,
                right: Box::new(Expression::Logical {
                    left: Box::new(Expression::Var("b".to_string())),
                    op: LogicalOp::And,
                    right: Box::new(Expression::Boolean(false)),
                }),
            }),
            op: LogicalOp::Or,
            right: Box::new(Expression::BinaryOp {
                left: Box::new(Expression::Int(-12)),
                op: BinaryOp::Lt,
                right: Box::new(Expression::Var("x".to_string())),
            }),
        }
    );
    assert_eq!(
        expr("invariant A { a - b - c }"),
        Expression::Arithmetic {
            left: Box::new(Expression::Arithmetic {
                left: Box::new(Expression::Var("a".to_string())),
                op: ArithOp::Sub,
                right: Box::new(Expression::Var("b".to_string())),
            }),
            op: ArithOp::Sub,
            right: Box::new(Expression::Var("c".to_string())),
        }
    );
}

#[test]
fn negation_fits_the_grammar_but_is_refused() {
    assert_eq!(
        parse_invariant("invariant A { !paused }").unwrap_err(),
        InvarError::ConfigError("Unexpected rule: not".to_string())
    );
}

#[test]
fn integers_beyond_i128_are_refused() {
    assert_eq!(
        parse_invariant("invariant A { x < 999999999999999999999999999999999999999999 }").unwrap_err(),
        InvarError::ConfigError("Invalid integer".to_string())
    );
    assert_eq!(
        expr("invariant A { x > -170141183460469231731687303715884105728 }"),
        Expression::BinaryOp {
            left: Box::new(Expression::Var("x".to_string())),
            op: BinaryOp::Gt,
            right: Box::new(Expression::Int(i128::MIN)),
        }
    );
}

#[test]
fn syntax_errors_are_configuration_errors() {
    match parse_invariant("invariant A { a + }") {
        Err(InvarError::ConfigError(m)) => assert!(m.contains("expected")),
        other => panic!("unexpected {other:?}"),
    }
    assert!(parse_invariant(" invariant A { a }").is_err());
    assert!(parse_invariant("invariant A { trueish }").is_err());
}

#[test]
fn text_after_the_definition_is_not_read() {
    assert!(parse_invariant("invariant A { a } trailing words").is_ok());
}
