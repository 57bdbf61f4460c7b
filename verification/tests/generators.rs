use truent::generators::{MoveGenerator, SolanaGenerator};
use truent::dsl_parser::parse_invariant;
use truent::model::{FunctionModel, ProgramModel};
use truent::strmap::StrSet;

fn program() -> ProgramModel {
    ProgramModel::new("vault".to_string(), "solana".to_string(), "src/lib.rs".to_string())
}

#[test]
fn move_assertions_name_the_invariant_in_capitals() {
    let inv = parse_invariant("invariant supply_cap { supply <= cap }").unwrap();
    let out = MoveGenerator.generate(&program(), &[inv]).unwrap();
    assert_eq!(out.assertions, vec!["assert!((supply <= cap), E_INVARIANT_SUPPLY_CAP);".to_string()]);
    assert_eq!(out.code, "// Generated Move invariant checks for vault\n// 1 assertions\n");
    assert_eq!(out.coverage_percent, 0);
    assert!(out.tests.is_none());
    assert_eq!(MoveGenerator.chain(), "move");
}

#[test]
fn solana_coverage_counts_assertions_when_there_are_functions() {
    let inv = parse_invariant("invariant Pos { balance >= 0 }").unwrap();
    let out = SolanaGenerator.generate(&program(), &[inv.clone()]).unwrap();
    assert_eq!(out.assertions, vec!["assert!((balance >= 0), \"Invariant Pos violated\");".to_string()]);
    assert_eq!(out.code, "// Generated invariant checks for vault\n// 1 invariants injected\n");
    assert_eq!(out.coverage_percent, 0);

    let mut p = program();
    p.add_function(FunctionModel {
        name: "deposit".to_string(),
        parameters: vec![],
        return_type: None,
        mutates: StrSet::new(),
        reads: StrSet::new(),
        is_entry_point: true,
        is_pure: false,
    });
    let out = SolanaGenerator.generate(&p, &[inv.clone(), inv]).unwrap();
    assert_eq!(out.coverage_percent, 2);
    assert_eq!(SolanaGenerator.chain(), "solana");
}
