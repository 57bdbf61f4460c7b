use truent::finding::{Finding, Severity};
use truent::oz_integration::{OZMappingRegistry, OZVulnerabilityType};

#[test]
fn oz_registry_maps_detectors() {
    let registry = OZMappingRegistry::new();

    assert_eq!(
        registry.get_oz_type("health_check"),
        Some(OZVulnerabilityType::StateManagement)
    );

    assert_eq!(
        registry.get_oz_type("oracle_self_trade"),
        Some(OZVulnerabilityType::OracleManipulation)
    );
}

#[test]
fn oz_registry_provides_recommendations() {
    let registry = OZMappingRegistry::new();

    let recs = registry.get_recommendations(&OZVulnerabilityType::AccessControl);
    assert!(recs.is_some());
    assert!(!recs.unwrap().is_empty());
}

#[test]
fn enriched_finding_generates_audit_report() {
    let finding = Finding::new(
        "test_detector".to_string(),
        Severity::High,
        "test.sol".to_string(),
        42,
        0,
        "Test vulnerability".to_string(),
        "test code".to_string(),
    );

    let registry = OZMappingRegistry::new();
    let enriched = registry.enrich_finding(&finding);

    let report = enriched.to_audit_report();
    assert!(report.contains("test.sol:42"));
}

#[test]
fn oz_type_equality() {
    let t1 = OZVulnerabilityType::Reentrancy;
    let t2 = OZVulnerabilityType::Reentrancy;
    assert_eq!(t1, t2);
}

#[test]
fn unknown_detectors_have_no_oz_type() {
    let registry = OZMappingRegistry::new();
    assert_eq!(registry.get_oz_type("no_such_detector"), None);
}
