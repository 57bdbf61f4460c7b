use truent::solana_macro::{
    compute_check_hash, parse_invariant_checks, validate_function_signature, FnParam,
};
use truent::threat_model::TamperDetector;

#[test]
fn test_check_hash_deterministic() {
    let checks1 = vec!["balance >= 0".to_string(), "supply > 0".to_string()];
    let checks2 = vec!["supply > 0".to_string(), "balance >= 0".to_string()];

    let hash1 = compute_check_hash(&checks1);
    let hash2 = compute_check_hash(&checks2);

    assert_eq!(hash1, hash2);
}

#[test]
fn test_parse_invariant_checks() {
    let args = r#""balance >= 0", "supply > 0""#;
    let checks = parse_invariant_checks(args);

    assert_eq!(checks.len(), 2);
    assert_eq!(checks[0], "balance >= 0");
    assert_eq!(checks[1], "supply > 0");
}

#[test]
fn empty_pieces_and_quotes_are_dropped() {
    let checks = parse_invariant_checks(" 'a > 0' ,, \"\" ,  \"b\"  ,");
    assert_eq!(checks, vec!["a > 0".to_string(), "b".to_string()]);
    assert!(parse_invariant_checks("").is_empty());
}

#[test]
fn check_hash_matches_the_tamper_detector() {
    let checks = vec!["x".to_string(), "y".to_string()];
    assert_eq!(compute_check_hash(&checks), TamperDetector::compute_hash(&checks));
}

#[test]
fn signature_needs_a_mut_parameter_and_no_receiver() {
    let ok = validate_function_signature(&vec![
        FnParam::Typed { ident: Some("from".to_string()), mutable: true },
        FnParam::Typed { ident: Some("amount".to_string()), mutable: false },
        FnParam::Typed { ident: Some("to".to_string()), mutable: true },
    ]);
    assert_eq!(ok, Ok(vec!["from".to_string(), "to".to_string()]));

    let none = validate_function_signature(&vec![FnParam::Typed {
        ident: Some("amount".to_string()),
        mutable: false,
    }]);
    assert_eq!(
        none,
        Err("Function must have at least one &mut parameter for state".to_string())
    );

    let receiver = validate_function_signature(&vec![
        FnParam::Receiver,
        FnParam::Typed { ident: Some("x".to_string()), mutable: true },
    ]);
    assert_eq!(
        receiver,
        Err("Invariant-enforced functions cannot have &self/&mut self".to_string())
    );
}
