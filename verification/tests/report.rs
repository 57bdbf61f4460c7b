use truent::finding::{Evidence, Finding, Severity};
use truent::report::{
    chain_extension, chain_name, check_totals, count_violations_by_severity, fails_at,
    filter_violations, finding_to_violation, invariant_id_to_title, map_invariant_to_cwe,
    severity_arg_rank, severity_rank, ChainArg, SeverityArg, Violation,
};

#[test]
fn titles_drop_the_chain_prefix_and_capitalise_words() {
    assert_eq!(invariant_id_to_title("evm_integer_overflow"), "Integer Overflow");
    assert_eq!(invariant_id_to_title("sol_signer_checks"), "Signer Checks");
    assert_eq!(invariant_id_to_title("custom__rule"), "Custom  Rule");
}

#[test]
fn cwe_follows_the_first_matching_keyword() {
    assert_eq!(
        map_invariant_to_cwe("evm_reentrancy_protection"),
        "CWE-841 · Improper Enforcement of Behavioral Workflow"
    );
    assert_eq!(map_invariant_to_cwe("evm_integer_underflow"), "CWE-191 · Integer Underflow");
}

#[test]
fn extensions_per_chain() {
    assert_eq!(chain_extension(&ChainArg::Evm), "sol");
    assert_eq!(chain_extension(&ChainArg::Solana), "rs");
    assert_eq!(chain_extension(&ChainArg::Move), "move");
    assert_eq!(chain_extension(&ChainArg::Soroban), "rs");
}

#[test]
fn severity_ranks_ignore_case() {
    assert_eq!(severity_rank("CRITICAL"), 3);
    assert_eq!(severity_rank("High"), 2);
    assert_eq!(severity_rank("medium"), 1);
    assert_eq!(severity_rank("info"), 0);
    assert_eq!(severity_arg_rank(&SeverityArg::Critical), 3);
    assert_eq!(severity_arg_rank(&SeverityArg::Low), 0);
}

#[test]
fn violations_carry_the_finding() {
    let f = Finding::new(
        "evm_integer_overflow".to_string(),
        Severity::High,
        "Token.sol".to_string(),
        12,
        3,
        "overflow".to_string(),
        "a + b".to_string(),
    );
    let v = finding_to_violation(&f, 1, 2);
    assert_eq!(v.severity, "high");
    assert_eq!(v.title, "Integer Overflow");
    assert_eq!(v.location, "Token.sol:12");
    assert_eq!(v.code_snippet, "a + b");
    assert_eq!(v.cwe, "CWE-190 · Integer Overflow");
    assert!(v.recommendation.starts_with("Review this finding and apply the recommended fix. Details: "));
    let counts = count_violations_by_severity(&[v.clone(), v]);
    assert_eq!(counts, (0, 2, 0, 0));
}

fn violation(severity: &str, id: &str) -> Violation {
    Violation {
        index: 0,
        total: 0,
        severity: severity.to_string(),
        title: id.to_string(),
        invariant_id: id.to_string(),
        location: "a.sol:1".to_string(),
        cwe: String::new(),
        message: String::new(),
        recommendation: String::new(),
        reference: String::new(),
        code_snippet: String::new(),
        evidence: Evidence::Proven,
    }
}

fn lead(severity: &str, id: &str) -> Violation {
    Violation { evidence: Evidence::Lead, ..violation(severity, id) }
}

#[test]
fn chain_names_and_check_totals() {
    assert_eq!(chain_name(&ChainArg::Evm), "EVM");
    assert_eq!(chain_name(&ChainArg::Soroban), "Soroban");
    assert_eq!(check_totals(&ChainArg::Evm, 3), (44, 41));
    assert_eq!(check_totals(&ChainArg::Move, 10), (10, 0));
    assert_eq!(check_totals(&ChainArg::Solana, 11), (11, 0));
}

#[test]
fn filters_keep_order_and_renumber() {
    let vs = vec![
        violation("low", "evm_unchecked_return"),
        violation("Critical", "evm_reentrancy_classic"),
        violation("high", "evm_access_control"),
        violation("critical", "sol_missing_signer"),
    ];
    let kept = filter_violations(vs, Some(SeverityArg::High), &[]);
    let ids: Vec<(&str, usize, usize)> = kept
        .iter()
        .map(|v| (v.invariant_id.as_str(), v.index, v.total))
        .collect();
    assert_eq!(
        ids,
        vec![
            ("evm_reentrancy_classic", 1, 3),
            ("evm_access_control", 2, 3),
            ("sol_missing_signer", 3, 3),
        ]
    );
    let by_id = filter_violations(kept, None, &["reentrancy".to_string(), "signer".to_string()]);
    assert_eq!(by_id.len(), 2);
    assert_eq!(by_id[1].invariant_id, "sol_missing_signer");
    assert_eq!((by_id[1].index, by_id[1].total), (2, 2));
}

#[test]
fn the_run_fails_at_the_threshold() {
    let vs = vec![violation("medium", "a"), violation("HIGH", "b")];
    assert!(fails_at(&vs, SeverityArg::High, false));
    assert!(!fails_at(&vs, SeverityArg::Critical, false));
    assert!(fails_at(&vs, SeverityArg::Low, false));
    assert!(!fails_at(&[], SeverityArg::Low, false));
}

#[test]
fn critical_leads_are_reported_but_do_not_fail_the_run() {
    let vs = vec![lead("critical", "evm_reentrancy_classic"), lead("critical", "evm_access_control")];
    let kept = filter_violations(vs, Some(SeverityArg::Critical), &[]);
    assert_eq!(kept.len(), 2);
    assert!(kept.iter().all(|v| v.severity == "critical"));
    assert!(!fails_at(&kept, SeverityArg::Critical, false));
    assert!(fails_at(&kept, SeverityArg::Critical, true));
    let mixed = vec![lead("critical", "a"), violation("low", "b")];
    assert!(!fails_at(&mixed, SeverityArg::High, false));
    assert!(fails_at(&mixed, SeverityArg::Low, false));
}

#[test]
fn code_snippets_show_two_lines_before_and_after() {
    let lines: Vec<String> = (1..=6).map(|i| format!("line {i}")).collect();
    assert_eq!(
        truent::report::code_snippet(&lines, 4, "a.sol"),
        "2 | line 2\n      3 | line 3\n>>>   4 | line 4\n      5 | line 5\n      6 | line 6"
    );
    assert_eq!(
        truent::report::code_snippet(&lines, 1, "a.sol"),
        ">>>   1 | line 1\n      2 | line 2\n      3 | line 3"
    );
    assert_eq!(
        truent::report::code_snippet(&lines, 7, "a.sol"),
        "Line 7 is out of range in a.sol"
    );
    assert_eq!(
        truent::report::code_snippet(&lines, 0, "a.sol"),
        "Line 0 is out of range in a.sol"
    );
}

#[test]
fn report_input_is_json_when_it_opens_an_object_or_array() {
    assert!(truent::report::looks_like_json("  {\"a\": 1}"));
    assert!(truent::report::looks_like_json("\n[1, 2]\n"));
    assert!(!truent::report::looks_like_json("plain text"));
    assert!(!truent::report::looks_like_json("   "));
}

