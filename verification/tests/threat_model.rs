use truent::model::Expression;
use truent::threat_model::{
    DSLSandbox, InjectionVerifier, StrictModeAnalyzer, TamperDetector,
};

#[test]
fn test_injection_verification() {
    let generated_code = r#"
        fn transfer(from: &mut Account, to: &mut Account, amount: u64) {
            from.balance -= amount;
            to.balance += amount;
            // Invariant: balance >= 0
            // TRUENT_HASH: abcd1234
        }
        "#;

    let checks = vec!["balance >= 0".to_string()];
    assert!(InjectionVerifier::verify_coverage(generated_code, &checks).is_ok());
}

#[test]
fn test_injection_verification_missing_check() {
    let generated_code = "fn transfer() { /* no checks */ }";
    let checks = vec!["balance >= 0".to_string()];
    assert!(InjectionVerifier::verify_coverage(generated_code, &checks).is_err());
}

#[test]
fn test_scope_containment() {
    let safe_code = "let x = a + b; assert!(x > 0);";
    assert!(InjectionVerifier::verify_scope_containment(safe_code).is_ok());

    let unsafe_code = "use std::fs; fs::write(\"file.txt\", \"\");";
    assert!(InjectionVerifier::verify_scope_containment(unsafe_code).is_err());
}

#[test]
fn test_tamper_hash_deterministic() {
    let checks1 = vec!["a".to_string(), "b".to_string()];
    let checks2 = vec!["b".to_string(), "a".to_string()];

    let hash1 = TamperDetector::compute_hash(&checks1);
    let hash2 = TamperDetector::compute_hash(&checks2);

    assert_eq!(hash1, hash2);
}

#[test]
fn tamper_hash_is_sixteen_hex_digits_and_order_free() {
    let h = TamperDetector::compute_hash(&["x > 0".to_string(), "y > 0".to_string(), "z".to_string()]);
    assert_eq!(h.len(), 16);
    assert!(h.chars().all(|c| c.is_ascii_hexdigit() && !c.is_ascii_uppercase()));
    let g = TamperDetector::compute_hash(&["z".to_string(), "x > 0".to_string(), "y > 0".to_string()]);
    assert_eq!(h, g);
    let other = TamperDetector::compute_hash(&["x > 0".to_string()]);
    assert_ne!(h, other);
}

#[test]
fn tampering_is_detected_by_the_embedded_hash() {
    let checks = vec!["balance >= 0".to_string()];
    let hash = TamperDetector::compute_hash(&checks);
    let code = format!("// TRUENT_HASH: {}\nfn f() {{}}", hash);
    assert!(TamperDetector::verify_tampering(&code, &checks).is_ok());
    assert!(TamperDetector::verify_tampering("// TRUENT_HASH: 0000", &checks).is_err());
}

#[test]
fn test_dsl_sandbox_forbidden_variable() {
    let expr = Expression::Var("file_handle".to_string());
    assert!(DSLSandbox::validate_expression(&expr).is_err());
}

#[test]
fn test_dsl_sandbox_allowed_variable() {
    let expr = Expression::Var("balance".to_string());
    assert!(DSLSandbox::validate_expression(&expr).is_ok());
}

#[test]
fn test_dsl_sandbox_forbidden_function() {
    let expr = Expression::FunctionCall {
        name: "system_call".to_string(),
        args: vec![],
    };
    assert!(DSLSandbox::validate_expression(&expr).is_err());
}

#[test]
fn test_dsl_sandbox_allowed_function() {
    let expr = Expression::FunctionCall {
        name: "sum".to_string(),
        args: vec![Expression::Var("balances".to_string())],
    };
    assert!(DSLSandbox::validate_expression(&expr).is_ok());
}

#[test]
fn test_strict_mode_with_uncertainty() {
    let analyzer = StrictModeAnalyzer::new(true);
    let mutations = vec!["balance -= amount".to_string()];
    let warnings = vec!["mutation from function pointer call (uncertain)".to_string()];

    assert!(analyzer
        .verify_mutation_coverage(&mutations, &warnings)
        .is_err());
}

#[test]
fn test_strict_mode_disabled() {
    let analyzer = StrictModeAnalyzer::new(false);
    let mutations = vec!["balance -= amount".to_string()];
    let warnings = vec!["mutation from function pointer call (uncertain)".to_string()];

    assert!(analyzer
        .verify_mutation_coverage(&mutations, &warnings)
        .is_ok());
}
