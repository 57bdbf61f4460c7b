use truent::finding::{Evidence, Finding, Severity};

fn finding() -> Finding {
    Finding::new(
        "evm_test".into(),
        Severity::Critical,
        "t.sol".into(),
        1,
        0,
        "msg".into(),
        "code".into(),
    )
}

#[test]
fn test_severity_ordering() {
    assert!(Severity::Critical > Severity::High);
    assert!(Severity::High > Severity::Medium);
    assert!(Severity::Low < Severity::Medium);
}

#[test]
fn test_finding_dedup_key() {
    let f = Finding::new(
        "test_invariant".to_string(),
        Severity::High,
        "contract.sol".to_string(),
        42,
        10,
        "Test message".to_string(),
        "code snippet".to_string(),
    );
    assert_eq!(f.dedup_key(), "test_invariant:contract.sol:42");
}

#[test]
fn test_finding_with_metadata() {
    let f = Finding::new(
        "test".to_string(),
        Severity::Medium,
        "file.rs".to_string(),
        1,
        0,
        "msg".to_string(),
        "snippet".to_string(),
    )
    .with_metadata("chain".to_string(), "evm".to_string());

    assert_eq!(f.metadata.get("chain"), Some(&"evm".to_string()));
}

#[test]
fn findings_default_to_lead() {
    let f = finding();
    assert_eq!(f.evidence, Evidence::Lead);
    assert!(!f.is_proven(), "a pattern match has not been demonstrated");
}

#[test]
fn proof_is_opt_in() {
    let f = finding().proven();
    assert_eq!(f.evidence, Evidence::Proven);
    assert!(f.is_proven());
}

#[test]
fn severity_values_and_names() {
    assert_eq!(Severity::Critical.value(), 4);
    assert_eq!(Severity::Low.value(), 1);
    assert_eq!(Severity::High.name(), "HIGH");
    assert_eq!(Severity::Medium.to_string(), "MEDIUM");
}

#[test]
fn later_metadata_replaces_earlier() {
    let f = finding()
        .with_metadata("chain".to_string(), "evm".to_string())
        .with_metadata("chain".to_string(), "solana".to_string());
    assert_eq!(f.metadata.get("chain"), Some(&"solana".to_string()));
    assert_eq!(f.metadata.len(), 1);
}
