use truent::dynamic::{FunctionSpec, ParamKind};
use truent::evm_detect::{auto_detect_invariants, DetectedInvariant};

fn view_fn(name: &str, inputs: Vec<ParamKind>) -> FunctionSpec {
    FunctionSpec::new(name, [0u8; 4], inputs, false)
}

#[test]
fn detects_erc20_conservation_when_both_functions_present() {
    let functions = vec![
        view_fn("totalSupply", vec![]),
        view_fn("balanceOf", vec![ParamKind::Address]),
    ];
    let invariants = auto_detect_invariants(&functions, &[[1u8; 20]]);
    assert!(invariants.iter().any(|i| i.name().contains("conservation")));
}

#[test]
fn skips_conservation_when_only_one_of_the_pair_is_present() {
    let functions = vec![view_fn("totalSupply", vec![])];
    let invariants = auto_detect_invariants(&functions, &[[1u8; 20]]);
    assert!(!invariants.iter().any(|i| i.name().contains("conservation")));
}

#[test]
fn detects_monotonic_hints_case_insensitively() {
    let functions = vec![view_fn("TotalAssets", vec![])];
    let invariants = auto_detect_invariants(&functions, &[]);
    assert!(invariants.iter().any(|i| i.name().contains("monotonicity")));
}

#[test]
fn ignores_mutating_functions_and_functions_with_arguments_for_monotonic_hints() {
    let functions = vec![
        FunctionSpec::new("totalAssets", [0u8; 4], vec![], true), // mutates -> not a getter
        view_fn("checkpointFor", vec![ParamKind::Address]), // takes args -> not a plain accumulator getter
    ];
    let invariants = auto_detect_invariants(&functions, &[]);
    assert!(invariants.is_empty());
}

#[test]
fn returns_empty_on_unrecognized_abi() {
    let functions = vec![view_fn("frobnicate", vec![])];
    assert!(auto_detect_invariants(&functions, &[]).is_empty());
}

#[test]
fn detects_ownable_access_control_when_both_functions_present() {
    let functions = vec![
        view_fn("owner", vec![]),
        FunctionSpec::new(
            "transferOwnership",
            [0u8; 4],
            vec![ParamKind::Address],
            true,
        ),
    ];
    let invariants = auto_detect_invariants(&functions, &[]);
    assert!(invariants
        .iter()
        .any(|i| i.name().contains("transferOwnership authorization")));
}

#[test]
fn skips_access_control_when_transfer_ownership_takes_the_wrong_args() {
    let functions = vec![
        view_fn("owner", vec![]),
        FunctionSpec::new(
            "transferOwnership",
            [0u8; 4],
            vec![ParamKind::Address, ParamKind::Bool],
            true,
        ),
    ];
    assert!(auto_detect_invariants(&functions, &[]).is_empty());
}

#[test]
fn skips_access_control_when_only_owner_is_present() {
    let functions = vec![view_fn("owner", vec![])];
    assert!(auto_detect_invariants(&functions, &[]).is_empty());
}

#[test]
fn detections_come_in_order_with_their_functions() {
    let functions = vec![
        view_fn("exchangeRate", vec![]),
        FunctionSpec::new("balanceOf", [7, 7, 7, 7], vec![ParamKind::Address], false),
        view_fn("owner", vec![]),
        FunctionSpec::new("totalSupply", [1, 2, 3, 4], vec![], false),
        FunctionSpec::new("transferOwnership", [0u8; 4], vec![ParamKind::Address], true),
    ];
    let actors = [[1u8; 20], [2u8; 20]];
    let found = auto_detect_invariants(&functions, &actors);
    let names: Vec<&str> = found.iter().map(|d| d.name()).collect();
    assert_eq!(
        names,
        vec![
            "ERC20 conservation: sum(balanceOf) == totalSupply()",
            "transferOwnership authorization",
            "exchangeRate monotonicity",
            "totalSupply monotonicity",
        ]
    );
    match &found[0] {
        DetectedInvariant::Conservation { total_supply, balance_of, actors: a, .. } => {
            assert_eq!(total_supply.selector, [1, 2, 3, 4]);
            assert_eq!(balance_of.selector, [7, 7, 7, 7]);
            assert_eq!(a, &vec![[1u8; 20], [2u8; 20]]);
        }
        other => panic!("expected conservation, got {other:?}"),
    }
}
