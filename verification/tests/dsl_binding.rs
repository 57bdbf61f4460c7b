use truent::dsl_binding::{DslInvariant, Outcome};
use truent::dsl_parser::parse_invariant;
use truent::dynamic::{FunctionSpec, ParamKind};
use truent::model::{BinaryOp, Expression, Invariant as DslSpec};

fn view(name: &str) -> FunctionSpec {
    FunctionSpec::new(name, [0, 0, 0, 0], vec![], false)
}

fn spec(src: &str) -> DslSpec {
    parse_invariant(src).expect("parse")
}

fn word(v: u128) -> Option<[u8; 32]> {
    let mut w = [0u8; 32];
    w[16..].copy_from_slice(&v.to_be_bytes());
    Some(w)
}

fn outcome_text(o: &Outcome) -> String {
    match o {
        Outcome::Holds => "holds".to_string(),
        Outcome::Violated(t) => format!("violated: {t}"),
        Outcome::Undecidable(t) => format!("undecidable: {t}"),
    }
}

#[test]
fn binds_variables_to_matching_getters() {
    let fns = vec![view("collateral"), view("totalSupply")];
    let inv = DslInvariant::bind(&spec("invariant S { collateral >= totalSupply }"), &fns)
        .expect("should bind");
    assert_eq!(inv.reads.len(), 2);
}

/// snake_case in the DSL against camelCase in Solidity is a naming
/// convention difference, not a reason for a property to fail.
#[test]
fn binding_tolerates_snake_case_against_camel_case() {
    let fns = vec![view("totalSupply")];
    let inv = DslInvariant::bind(&spec("invariant S { total_supply >= 0 }"), &fns)
        .expect("should bind across conventions");
    assert_eq!(inv.reads[0].getter.name, "totalSupply");
}

/// An unbindable property must be an error. Skipping it would report "no
/// violations" for a check that never ran.
#[test]
fn unbound_variables_are_reported_not_skipped() {
    let fns = vec![view("collateral")];
    let err = DslInvariant::bind(
        &spec("invariant S { collateral >= user_yes + user_no }"),
        &fns,
    )
    .expect_err("must not bind");
    assert_eq!(
        err.unbound,
        vec!["user_no".to_string(), "user_yes".to_string()]
    );
    assert!(err.to_string().contains("collateral"), "{}", err.to_string());
}

/// A bare variable must not bind to a getter that needs arguments.
#[test]
fn bare_variable_does_not_bind_to_a_getter_with_arguments() {
    let fns = vec![FunctionSpec::new(
        "markets",
        [0, 0, 0, 0],
        vec![ParamKind::Uint256],
        false,
    )];
    assert!(DslInvariant::bind(&spec("invariant S { markets >= 0 }"), &fns).is_err());
}

/// Mapping-keyed state is reachable by calling the getter with literal
/// arguments.
#[test]
fn getters_bind_when_called_with_literal_arguments() {
    let fns = vec![FunctionSpec::new(
        "lpOf",
        [1, 2, 3, 4],
        vec![ParamKind::Uint256, ParamKind::Address],
        false,
    )];
    let inv = DslInvariant::bind(&spec("invariant S { lpOf(1, 2) >= 0 }"), &fns)
        .expect("should bind with literal args");
    assert_eq!(inv.reads.len(), 1);
    assert_eq!(inv.reads[0].args.len(), 2);
}

/// Arity is part of the match.
#[test]
fn arity_must_match() {
    let fns = vec![FunctionSpec::new(
        "lpOf",
        [1, 2, 3, 4],
        vec![ParamKind::Uint256, ParamKind::Address],
        false,
    )];
    assert!(DslInvariant::bind(&spec("invariant S { lpOf(1) >= 0 }"), &fns).is_err());
}

#[test]
fn unbound_report_lists_the_available_getters() {
    let fns = vec![
        view("collateral"),
        FunctionSpec::new("deposit", [0; 4], vec![ParamKind::Uint256], true),
        view("owner"),
    ];
    let err = DslInvariant::bind(&spec("invariant Solvent { collateral >= debt }"), &fns)
        .expect_err("debt is unbound");
    assert_eq!(err.invariant, "Solvent");
    assert_eq!(err.unbound, vec!["debt".to_string()]);
    assert_eq!(err.available, vec!["collateral".to_string(), "owner".to_string()]);
    assert_eq!(
        err.to_string(),
        "invariant 'Solvent' references a variable with no matching zero-argument view on the contract.\n  unbound: debt\n  available getters: collateral, owner"
    );
}

#[test]
fn a_call_with_the_wrong_arity_is_reported_with_its_arity() {
    let fns = vec![FunctionSpec::new("lpOf", [0; 4], vec![ParamKind::Uint256], false)];
    let err = DslInvariant::bind(&spec("invariant S { lpOf(1, 2) >= 0 }"), &fns)
        .expect_err("no two-argument lpOf");
    assert_eq!(err.unbound, vec!["lpOf/2".to_string()]);
}

#[test]
fn a_negative_literal_argument_cannot_be_encoded() {
    let fns = vec![FunctionSpec::new("lpOf", [0; 4], vec![ParamKind::Uint256], false)];
    let mut s = spec("invariant S { lpOf(1) >= 0 }");
    s.expression = Expression::BinaryOp {
        left: Box::new(Expression::FunctionCall {
            name: "lpOf".to_string(),
            args: vec![Expression::Int(-3)],
        }),
        op: BinaryOp::Gte,
        right: Box::new(Expression::Int(0)),
    };
    let err = DslInvariant::bind(&s, &fns).expect_err("negative argument");
    assert_eq!(err.unbound, vec!["negative argument -3 is not encodable".to_string()]);
}

#[test]
fn literal_arguments_are_encoded_as_abi_words() {
    let fns = vec![FunctionSpec::new(
        "lpOf",
        [1, 2, 3, 4],
        vec![ParamKind::Uint256, ParamKind::Bool],
        false,
    )];
    let inv = DslInvariant::bind(&spec("invariant S { lpOf(258, true) >= 0 }"), &fns)
        .expect("binds");
    let mut first = [0u8; 32];
    first[30] = 1;
    first[31] = 2;
    let mut second = [0u8; 32];
    second[31] = 1;
    assert_eq!(inv.reads[0].args, vec![first, second]);
    assert_eq!(inv.reads[0].key, "lpOf(258,1)");
    assert_eq!(inv.reads[0].getter.selector, [1, 2, 3, 4]);
}

#[test]
fn each_read_is_bound_once_in_key_order() {
    let fns = vec![view("b"), view("a")];
    let inv = DslInvariant::bind(&spec("invariant S { b + a + b >= a }"), &fns).expect("binds");
    let keys: Vec<&str> = inv.reads.iter().map(|r| r.key.as_str()).collect();
    assert_eq!(keys, vec!["a", "b"]);
    assert_eq!(inv.name(), "S");
}

#[test]
fn a_view_is_preferred_to_a_mutating_function_of_the_same_name() {
    let fns = vec![
        FunctionSpec::new("total", [9, 9, 9, 9], vec![], true),
        FunctionSpec::new("total", [1, 1, 1, 1], vec![], false),
    ];
    let inv = DslInvariant::bind(&spec("invariant S { total >= 0 }"), &fns).expect("binds");
    assert_eq!(inv.reads[0].getter.selector, [1, 1, 1, 1]);
    let only_mutating = vec![FunctionSpec::new("total", [9, 9, 9, 9], vec![], true)];
    let inv = DslInvariant::bind(&spec("invariant S { total >= 0 }"), &only_mutating).expect("binds");
    assert_eq!(inv.reads[0].getter.selector, [9, 9, 9, 9]);
}

#[test]
fn judge_decides_holding_and_violated_states() {
    let fns = vec![view("collateral"), view("totalSupply")];
    let inv = DslInvariant::bind(&spec("invariant S { collateral >= totalSupply }"), &fns)
        .expect("binds");
    assert_eq!(outcome_text(&inv.judge(&[word(5), word(3)])), "holds");
    assert_eq!(
        outcome_text(&inv.judge(&[word(2), word(3)])),
        "violated: violated with collateral = 2, totalSupply = 3"
    );
}

#[test]
fn judge_is_undecided_when_a_read_fails() {
    let fns = vec![view("collateral"), view("totalSupply")];
    let inv = DslInvariant::bind(&spec("invariant S { collateral >= totalSupply }"), &fns)
        .expect("binds");
    assert_eq!(
        outcome_text(&inv.judge(&[None, word(3)])),
        "undecidable: getter collateral() reverted"
    );
    let mut wide = [0u8; 32];
    wide[0] = 1;
    assert_eq!(
        outcome_text(&inv.judge(&[word(1), Some(wide)])),
        "undecidable: totalSupply() exceeds 128 bits in this state"
    );
}

#[test]
fn judge_substitutes_values_read_for_calls() {
    let fns = vec![FunctionSpec::new(
        "lpOf",
        [1, 2, 3, 4],
        vec![ParamKind::Uint256, ParamKind::Address],
        false,
    )];
    let inv = DslInvariant::bind(&spec("invariant S { lpOf(1, 2) >= 5 }"), &fns).expect("binds");
    assert_eq!(outcome_text(&inv.judge(&[word(7)])), "holds");
    assert_eq!(
        outcome_text(&inv.judge(&[word(4)])),
        "violated: violated with lpOf(1,2) = 4"
    );
}

#[test]
fn judge_reports_what_cannot_be_evaluated() {
    let fns = vec![view("collateral"), view("debt")];
    let inv = DslInvariant::bind(&spec("invariant S { collateral / debt >= 1 }"), &fns)
        .expect("binds");
    assert_eq!(
        outcome_text(&inv.judge(&[word(5), word(0)])),
        "undecidable: could not evaluate: division by zero"
    );
    let inv = DslInvariant::bind(&spec("invariant S { collateral + debt }"), &fns).expect("binds");
    assert_eq!(
        outcome_text(&inv.judge(&[word(5), word(1)])),
        "undecidable: expression evaluated to 6, not a boolean"
    );
}
