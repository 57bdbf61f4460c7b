use truent::soroban::SorobanAnalyzer;
use truent::test_infrastructure::{DetectorTestCase, DetectorTestSuite};

#[test]
fn test_placeholder() {}

#[test]
fn test_chain_identifier() {
    let analyzer = SorobanAnalyzer;
    assert_eq!(analyzer.chain(), "soroban");
}

#[test]
fn test_suite_stores_cases() {
    let mut suite = DetectorTestSuite::new();
    let test_case = DetectorTestCase {
        name: "vulnerable_case".to_string(),
        code: "malicious code".to_string(),
        is_vulnerable: true,
        expected_findings: 1,
        category: "vulnerable".to_string(),
    };

    suite.add_test_case("detector1".to_string(), test_case);
    assert!(suite.get_test_cases("detector1").is_some());
    assert!(suite.get_test_cases("detector2").is_none());
}
