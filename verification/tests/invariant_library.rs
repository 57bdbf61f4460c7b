use truent::invariant_library::{
    compile_constraint, parse_invariant_table, InvariantEntry, InvariantLibrary, LibraryLoader,
};
use truent::error::InvarError;
use truent::model::{Expression, Invariant, LogicalOp};

#[test]
fn evm_defaults_compile_to_real_expressions() {
    let lib = InvariantLibrary::with_defaults("evm");
    let invariants = lib.all();
    assert_eq!(invariants.len(), 10);

    for inv in &invariants {
        match &inv.expression {
            Expression::Logical { .. } => {}
            other => panic!(
                "expected invariant '{}' to compile to Expression::Logical, got {:?}",
                inv.name, other
            ),
        }
    }
}

#[test]
fn solana_defaults_compile_to_real_expressions() {
    let lib = InvariantLibrary::with_defaults("solana");
    let invariants = lib.all();
    assert_eq!(invariants.len(), 7);
    for inv in &invariants {
        assert!(matches!(inv.expression, Expression::Logical { .. }));
    }
}

#[test]
fn move_defaults_compile_to_real_expressions() {
    let lib = InvariantLibrary::with_defaults("move");
    let invariants = lib.all();
    assert_eq!(invariants.len(), 5);
    for inv in &invariants {
        assert!(matches!(inv.expression, Expression::Logical { .. }));
    }
}

#[test]
fn soroban_defaults_compile_to_real_expressions() {
    let lib = InvariantLibrary::with_defaults("soroban");
    let invariants = lib.all();
    assert_eq!(invariants.len(), 6);
    for inv in &invariants {
        assert!(matches!(inv.expression, Expression::Logical { .. }));
    }
}

#[test]
fn unknown_chain_yields_empty_library() {
    let lib = InvariantLibrary::with_defaults("cosmwasm");
    assert_eq!(lib.count(), 0);
}

#[test]
fn chain_names_match_without_case() {
    let lib = InvariantLibrary::with_defaults("EVM");
    assert_eq!(lib.count(), 10);
    let evm = lib.get_category("EVM").unwrap();
    assert_eq!(evm[0].name, "evm_reentrancy_protection");
    assert_eq!(evm[0].description.as_deref(), Some("EVM invariant: Reentrancy Protection"));
    assert_eq!(evm[0].severity, "high");
    assert_eq!(evm[0].category, "evm");
    assert_eq!(evm[0].layers, vec!["control_flow".to_string(), "data_flow".to_string()]);
    assert_eq!(evm[0].phases, vec!["execution".to_string(), "finalization".to_string()]);
    assert!(lib.get_category("Solana").is_none());
}

#[test]
fn constraints_compile_with_keywords_rewritten() {
    assert_eq!(
        compile_constraint("x", "a AND b OR c"),
        Expression::Logical {
            left: Box::new(Expression::Logical {
                left: Box::new(Expression::Var("a".to_string())),
                op: LogicalOp::And,
                right: Box::new(Expression::Var("b".to_string())),
            }),
            op: LogicalOp::Or,
            right: Box::new(Expression::Var("c".to_string())),
        }
    );
    assert_eq!(compile_constraint("fallback_id", "a AND"), Expression::Var("fallback_id".to_string()));
}

fn sample(name: &str, expression: &str) -> Invariant {
    let mut lib = InvariantLibrary::new();
    lib.add("Custom".to_string(), parse_invariant_table(&entry(Some(name), Some(expression))).unwrap());
    lib.get_category("Custom").unwrap()[0].clone()
}

fn entry(name: Option<&str>, expression: Option<&str>) -> InvariantEntry {
    InvariantEntry {
        is_table: true,
        name: name.map(|s| s.to_string()),
        expression: expression.map(|s| s.to_string()),
        severity: None,
        category: None,
        description: None,
    }
}

#[test]
fn added_invariants_are_listed_by_category_name() {
    let mut lib = InvariantLibrary::new();
    lib.add("b".to_string(), sample("second", "y > 0"));
    lib.add("a".to_string(), sample("first", "x > 0"));
    lib.add("b".to_string(), sample("third", "z > 0"));
    let names: Vec<&str> = lib.all().iter().map(|i| i.name.as_str()).collect();
    assert_eq!(names, vec!["first", "second", "third"]);
    assert_eq!(lib.count(), 3);
}

#[test]
fn table_entries_become_invariants() {
    let mut e = entry(Some("balance_conservation"), Some("sum_balances == total_supply"));
    e.severity = Some("critical".to_string());
    e.description = Some("Balances add up".to_string());
    let inv = parse_invariant_table(&e).unwrap();
    assert_eq!(inv.name, "balance_conservation");
    assert_eq!(inv.severity, "critical");
    assert_eq!(inv.category, "general");
    assert_eq!(inv.description.as_deref(), Some("Balances add up"));
    assert_eq!(inv.expression.to_string(), "(sum_balances == total_supply)");
}

#[test]
fn table_entry_errors() {
    let mut not_table = entry(Some("a"), Some("b"));
    not_table.is_table = false;
    assert_eq!(
        parse_invariant_table(&not_table).unwrap_err(),
        InvarError::ConfigError("Invariant must be a table".to_string())
    );
    assert_eq!(
        parse_invariant_table(&entry(None, Some("b"))).unwrap_err(),
        InvarError::ConfigError("Invariant must have a 'name' field".to_string())
    );
    assert_eq!(
        parse_invariant_table(&entry(Some("a"), None)).unwrap_err(),
        InvarError::ConfigError("Invariant must have an 'expression' field".to_string())
    );
}

#[test]
fn loading_skips_entries_that_fail() {
    let entries = vec![
        entry(Some("good"), Some("x > 0")),
        entry(None, Some("x > 0")),
        entry(Some("bad"), Some("x >")),
        entry(Some("also_good"), Some("y == 1")),
    ];
    let loaded = LibraryLoader::load_entries(&entries);
    let names: Vec<&str> = loaded.iter().map(|i| i.name.as_str()).collect();
    assert_eq!(names, vec!["good", "also_good"]);
}

#[test]
fn toml_text_loads_its_invariants() {
    let text = r#"
[[invariants]]
name = "balance_conservation"
expression = "sum_balances == total_supply"
severity = "critical"

[[invariants]]
expression = "x > 0"

[[invariants]]
name = "positive"
expression = "x > 0"
"#;
    let invs = LibraryLoader::load_from_toml_text(text).unwrap();
    assert_eq!(invs.len(), 2);
    assert_eq!(invs[0].name, "balance_conservation");
    assert_eq!(invs[0].severity, "critical");
    assert_eq!(invs[1].severity, "medium");
    assert_eq!(invs[1].category, "general");
    assert!(LibraryLoader::load_from_toml_text("title = \"none\"").unwrap().is_empty());
    assert!(matches!(
        LibraryLoader::load_from_toml_text("[[invariants]\nname ="),
        Err(truent::error::InvarError::ConfigError(_))
    ));
}
