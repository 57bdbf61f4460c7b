use truent::registry::{Exploit, ExploitRegistry};

fn exploit(id: &str, chain: &str, loss: u64, invs: &[&str]) -> Exploit {
    Exploit {
        id: id.to_string(),
        protocol: format!("{id} protocol"),
        date: "2022-01-01".to_string(),
        loss_usd: loss,
        chain: chain.to_string(),
        invariant_ids: invs.iter().map(|s| s.to_string()).collect(),
        attack_summary: "summary".to_string(),
        tx_hash: "0x0".to_string(),
        postmortem_url: "https://example.com".to_string(),
    }
}

#[test]
fn registry_queries() {
    let reg = ExploitRegistry::from_exploits(vec![
        exploit("b-hack", "Ethereum", 10, &["evm_reentrancy_protection"]),
        exploit("a-hack", "solana", 5, &["sol_signer_checks"]),
        exploit("c-hack", "ethereum", 1, &["evm_reentrancy_protection", "evm_access_control"]),
    ]);
    assert_eq!(reg.count(), 3);
    assert_eq!(reg.total_loss(), 16);
    let ids: Vec<&str> = reg.all().iter().map(|e| e.id.as_str()).collect();
    assert_eq!(ids, vec!["a-hack", "b-hack", "c-hack"]);
    assert_eq!(reg.by_chain("ETHEREUM").len(), 2);
    assert_eq!(reg.by_invariant("evm_reentrancy_protection").len(), 2);
    assert!(reg.get("a-hack").is_some());
    assert!(reg.get("zzz").is_none());
}

#[test]
fn a_later_exploit_with_the_same_id_replaces_the_earlier() {
    let reg = ExploitRegistry::from_exploits(vec![
        exploit("x-hack", "Ethereum", 10, &[]),
        exploit("a-hack", "solana", 5, &[]),
        exploit("x-hack", "Solana", 7, &[]),
    ]);
    assert_eq!(reg.count(), 2);
    assert_eq!(reg.get("x-hack").unwrap().loss_usd, 7);
    assert_eq!(reg.get("x-hack").unwrap().chain, "Solana");
    assert_eq!(reg.total_loss(), 12);
    let ids: Vec<&str> = reg.all().iter().map(|e| e.id.as_str()).collect();
    assert_eq!(ids, vec!["a-hack", "x-hack"]);
}
