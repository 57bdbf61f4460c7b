use truent::finding::Severity;
use truent::ir::rules::{find_unauthorized_privileged_mutations, UNAUTHORIZED_PRIVILEGED_MUTATION};
use truent::ir::semantic::{
    AuthCheckKind, AuthorizationCheck, MutationKind, PrivilegedMutation, SemanticModel,
};

#[test]
fn flags_unguarded_mutation() {
    let mut model = SemanticModel::new("evm", "Vault.sol");
    model.mutations.push(PrivilegedMutation {
        entry_point: "withdraw".to_string(),
        kind: MutationKind::FundTransfer,
        line: 10,
        guards: vec![],
    });

    let findings = find_unauthorized_privileged_mutations(&model);
    assert_eq!(findings.len(), 1);
    assert_eq!(findings[0].invariant_id, UNAUTHORIZED_PRIVILEGED_MUTATION);
    assert_eq!(findings[0].severity, Severity::Critical);
    assert_eq!(findings[0].metadata.get("chain").unwrap(), "evm");
}

#[test]
fn does_not_flag_guarded_mutation() {
    let mut model = SemanticModel::new("evm", "Vault.sol");
    model.mutations.push(PrivilegedMutation {
        entry_point: "withdraw".to_string(),
        kind: MutationKind::FundTransfer,
        line: 10,
        guards: vec![AuthorizationCheck {
            kind: AuthCheckKind::Signer,
            source: "onlyOwner".to_string(),
        }],
    });

    assert!(find_unauthorized_privileged_mutations(&model).is_empty());
}
