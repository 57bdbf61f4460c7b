use truent::dsl_parser::parse_invariant;
use truent::model::{FunctionModel, Invariant, ProgramModel};
use truent::strmap::StrSet;
use truent::violations::{
    confidence_basis, find_vulnerability_line, generate_detailed_violation_info, ConfidenceBasis,
};

fn function(name: &str, markers: &[&str], entry: bool) -> FunctionModel {
    let mut mutates = StrSet::new();
    for m in markers {
        mutates.insert(m.to_string());
    }
    FunctionModel {
        name: name.to_string(),
        parameters: vec![],
        return_type: None,
        mutates,
        reads: StrSet::new(),
        is_entry_point: entry,
        is_pure: false,
    }
}

fn program(chain: &str, functions: Vec<FunctionModel>) -> ProgramModel {
    let mut p = ProgramModel::new("p".to_string(), chain.to_string(), "p.rs".to_string());
    for f in functions {
        p.add_function(f);
    }
    p
}

fn named(name: &str) -> Invariant {
    let mut inv = parse_invariant("invariant x { true }").unwrap();
    inv.name = name.to_string();
    inv
}

#[test]
fn chain_markers_fix_the_confidence() {
    let p = program("Solana", vec![function("withdraw", &["SOLANA_MISSING_SIGNER:12"], true)]);
    assert_eq!(confidence_basis(&p, &named("sol_signer_checks")), ConfidenceBasis::Marker(88));
    let e = program("evm", vec![function("f", &["EVM_REENTRANCY:3"], true)]);
    assert_eq!(confidence_basis(&e, &named("evm_reentrancy_protection")), ConfidenceBasis::Marker(93));
}

#[test]
fn move_mutation_invariants_match_without_a_marker() {
    let p = program("move", vec![]);
    assert_eq!(confidence_basis(&p, &named("state_mutation")), ConfidenceBasis::Marker(82));
}

#[test]
fn without_markers_the_heuristic_inputs_are_reported() {
    let p = program(
        "evm",
        vec![function("add_liquidity", &[], true), function("b", &[], false), function("c", &[], false)],
    );
    assert_eq!(
        confidence_basis(&p, &named("integer_overflow")),
        ConfidenceBasis::Heuristic {
            reentrancy: false,
            arithmetic: true,
            access: false,
            functions: 3,
            state_vars: 0,
        }
    );
}

#[test]
fn vulnerability_lines_come_from_relevant_markers() {
    let p = program(
        "solana",
        vec![
            function("a", &["SOLANA_MISSING_SIGNER:x", "SOLANA_RENT_EXEMPTION:7"], true),
            function("b", &["SOLANA_MISSING_SIGNER:+42"], true),
        ],
    );
    assert_eq!(find_vulnerability_line(&p, "sol_signer_checks"), Some(42));
    assert_eq!(find_vulnerability_line(&p, "sol_rent_exemption"), Some(7));
    assert_eq!(find_vulnerability_line(&p, "sol_pda_derivation"), None);
}

#[test]
fn violation_explanations() {
    let p = program("Solana", vec![]);
    let (m, r) = generate_detailed_violation_info(&p, &named("sol_lamport_balance"), "95");
    assert_eq!(
        m,
        "Detected unsafe lamport manipulation with 95% confidence. Direct arithmetic on account lamports without validation or safety checks detected."
    );
    assert!(r.starts_with("CRITICAL: Never directly manipulate lamports without proper validation.\nFix: "));
    let e = program("evm", vec![]);
    let (m, r) = generate_detailed_violation_info(&e, &named("custom_rule"), "70");
    assert_eq!(m, "Detected violation of 'custom_rule' invariant with 70% confidence.");
    assert_eq!(
        r,
        "Review the 'custom_rule' invariant documentation at https://docs.truent.dev/invariants/custom_rule and apply recommended fixes."
    );
}
