use truent::finding::Severity;
use truent::ir::semantic::{AuthCheckKind, MutationKind};
use truent::soroban::{
    build_semantic_model, detect_all, detect_missing_require_auth, detect_reinitialization,
    detect_storage_ttl_not_extended, detect_thin_liquidity_oracle_price, detect_unhandled_panic,
    detect_unprotected_upgrade, run_all_detectors, ContractFunction,
};

fn cf(name: &str, line: usize) -> ContractFunction {
    ContractFunction {
        name: name.to_string(),
        line,
        has_require_auth: false,
        is_initialize: false,
        has_init_guard: true,
        upgrades_wasm: false,
        uses_unchecked_arithmetic: false,
        unwrap_count: 0,
        writes_persistent_storage: false,
        extends_ttl: false,
        writes_temporary_storage_of_sensitive_state: false,
        external_call_before_storage_write: false,
        uses_single_source_price_oracle: false,
    }
}

/// The facts of the vault fixture: an unguarded initializer, a withdraw with
/// raw arithmetic and temporary storage, an unguarded upgrade, and a payout
/// that writes storage after a token call.
fn vault() -> Vec<ContractFunction> {
    let mut init = cf("initialize", 7);
    init.is_initialize = true;
    init.has_init_guard = false;
    let mut withdraw = cf("withdraw", 11);
    withdraw.uses_unchecked_arithmetic = true;
    withdraw.unwrap_count = 1;
    withdraw.writes_persistent_storage = true;
    withdraw.writes_temporary_storage_of_sensitive_state = true;
    let mut upgrade = cf("upgrade", 18);
    upgrade.upgrades_wasm = true;
    let mut payout = cf("payout", 22);
    payout.writes_persistent_storage = true;
    payout.external_call_before_storage_write = true;
    vec![init, withdraw, upgrade, payout]
}

#[test]
fn missing_require_auth_flags_privileged_names_only() {
    let mut guarded = cf("admin_withdraw", 30);
    guarded.has_require_auth = true;
    let fns = vec![cf("withdraw", 3), cf("balance", 5), guarded, cf("SetOwner", 9)];
    let found = detect_missing_require_auth(&fns, "vault.rs");
    assert_eq!(found.len(), 1);
    assert_eq!(found[0].invariant_id, "sor_missing_require_auth");
    assert_eq!(found[0].severity, Severity::Critical);
    assert_eq!(found[0].line, 3);
    assert_eq!(found[0].snippet, "withdraw");
    assert_eq!(
        found[0].message,
        "Function 'withdraw' performs a privileged action with no require_auth() call reaching it"
    );
    assert_eq!(found[0].metadata.get("chain").map(|s| s.as_str()), Some("soroban"));
}

#[test]
fn each_detector_reports_its_pattern() {
    let fns = vault();
    assert_eq!(detect_unprotected_upgrade(&fns, "v.rs")[0].snippet, "upgrade");
    let init = detect_reinitialization(&fns, "v.rs");
    assert_eq!(init.len(), 1);
    assert_eq!(
        init[0].message,
        "Initializer 'initialize' has no storage check guarding against being called more than once"
    );
    let ttl = detect_storage_ttl_not_extended(&fns, "v.rs");
    assert_eq!(ttl.iter().map(|f| f.line).collect::<Vec<_>>(), vec![11, 22]);
    let panics = detect_unhandled_panic(&fns, "v.rs");
    assert_eq!(
        panics[0].message,
        "Function 'withdraw' calls unwrap()/expect() 1 time(s); prefer returning a #[contracterror] Result over aborting the invocation"
    );
    assert_eq!(panics[0].severity, Severity::Low);
    let mut oracle = cf("borrow", 40);
    oracle.uses_single_source_price_oracle = true;
    let o = detect_thin_liquidity_oracle_price(&[oracle], "lending.rs");
    assert_eq!(o[0].invariant_id, "sor_thin_liquidity_oracle_price");
    assert!(o[0].message.contains("YieldBlox ($10.2M, Feb 2026, Stellar/Soroban)"));
}

#[test]
fn detect_all_lists_most_severe_first_then_by_line() {
    let found = detect_all(&vault(), "vault.rs");
    let summary: Vec<(Severity, usize, &str)> = found
        .iter()
        .map(|f| (f.severity, f.line, f.invariant_id.as_str()))
        .collect();
    assert_eq!(
        summary,
        vec![
            (Severity::Critical, 11, "sor_missing_require_auth"),
            (Severity::Critical, 18, "sor_missing_require_auth"),
            (Severity::Critical, 18, "sor_unprotected_upgrade"),
            (Severity::Critical, 22, "sor_missing_require_auth"),
            (Severity::High, 7, "sor_reinitialization"),
            (Severity::High, 11, "sor_unchecked_arithmetic"),
            (Severity::High, 22, "sor_reentrancy_external_call"),
            (Severity::Medium, 11, "sor_storage_ttl_not_extended"),
            (Severity::Medium, 11, "sor_temporary_storage_critical_state"),
            (Severity::Medium, 22, "sor_storage_ttl_not_extended"),
            (Severity::Low, 11, "sor_unhandled_panic"),
        ]
    );
}

#[test]
fn the_semantic_model_records_privileged_functions_and_their_guards() {
    let mut admin = cf("admin_withdraw", 12);
    admin.has_require_auth = true;
    let fns = vec![cf("withdraw", 5), admin, cf("balance", 20)];
    let model = build_semantic_model(&fns, "vault.rs");
    assert_eq!(model.chain, "soroban");
    assert_eq!(model.source_path, "vault.rs");
    assert_eq!(model.mutations.len(), 2);
    assert_eq!(model.mutations[0].entry_point, "withdraw");
    assert_eq!(model.mutations[0].kind, MutationKind::FundTransfer);
    assert!(model.mutations[0].guards.is_empty());
    assert_eq!(model.mutations[1].guards.len(), 1);
    assert_eq!(model.mutations[1].guards[0].kind, AuthCheckKind::Signer);
    assert_eq!(model.mutations[1].guards[0].source, "require_auth");
}

#[test]
fn mutation_kinds_follow_the_name_then_the_upgrade() {
    let mut up = cf("upgrade", 3);
    up.upgrades_wasm = true;
    let fns = vec![cf("set_admin", 1), cf("remove_member", 2), up, cf("burn_and_set_owner", 4)];
    let kinds: Vec<MutationKind> = build_semantic_model(&fns, "c.rs")
        .mutations
        .into_iter()
        .map(|m| m.kind)
        .collect();
    assert_eq!(
        kinds,
        vec![
            MutationKind::AuthorityChange,
            MutationKind::AccountClose,
            MutationKind::Upgrade,
            MutationKind::FundTransfer,
        ]
    );
}

#[test]
fn run_all_detectors_adds_the_shared_rule_and_drops_repeats() {
    let mut init = cf("initialize", 7);
    init.is_initialize = true;
    init.has_init_guard = false;
    let mut withdraw = cf("withdraw", 11);
    withdraw.uses_unchecked_arithmetic = true;
    let found = run_all_detectors(&[init, withdraw], "vault.rs");
    let ids: Vec<(&str, usize)> = found
        .iter()
        .map(|f| (f.invariant_id.as_str(), f.line))
        .collect();
    assert_eq!(
        ids,
        vec![
            ("sor_missing_require_auth", 11),
            ("unauthorized_privileged_mutation", 11),
            ("sor_reinitialization", 7),
            ("sor_unchecked_arithmetic", 11),
        ]
    );
    let twice = run_all_detectors(&[cf("withdraw", 3), cf("withdraw", 3)], "vault.rs");
    assert_eq!(twice.len(), 2);
}

#[test]
fn no_facts_no_findings() {
    assert!(run_all_detectors(&[], "empty.rs").is_empty());
    assert!(detect_all(&[cf("balance", 1)], "ok.rs").is_empty());
}

const CONTRACT: &str = r#"
#[contract]
pub struct TokenContract;

#[contractimpl]
impl TokenContract {
    pub fn initialize(env: Env, admin: Address) {
        if env.storage().instance().has(&DataKey::Admin) {
            panic!("already initialized");
        }
        env.storage().instance().set(&DataKey::Admin, &admin);
    }

    pub fn withdraw(env: Env, to: Address, amount: i128) {
        let balance: i128 = env.storage().persistent().get(&DataKey::Balance(to.clone())).unwrap();
        let new_balance = balance - amount;
        env.storage().persistent().set(&DataKey::Balance(to), &new_balance);
    }

    pub fn safe_withdraw(env: Env, from: Address, to: Address, amount: i128) {
        from.require_auth();
        let balance: i128 = env.storage().persistent().get(&DataKey::Balance(from.clone())).unwrap();
        let new_balance = balance.checked_sub(amount).unwrap();
        env.storage().persistent().set(&DataKey::Balance(from), &new_balance);
        env.storage().persistent().extend_ttl(&DataKey::Balance(from), 100, 200);
    }
}
"#;

const KEYS: &[&str] = &["balance", "admin"];

#[test]
fn functions_are_located_by_their_fn_line() {
    assert_eq!(truent::soroban::line_of_fn(CONTRACT, "initialize"), 7);
    assert_eq!(truent::soroban::line_of_fn(CONTRACT, "withdraw"), 14);
    assert_eq!(truent::soroban::line_of_fn(CONTRACT, "safe_withdraw"), 20);
    assert_eq!(truent::soroban::line_of_fn(CONTRACT, "missing"), 1);
}

#[test]
fn facts_of_an_initializer_with_a_guard() {
    let body = "{ifenv.storage().instance().has(&DataKey::Admin){panic!(\"alreadyinitialized\");}env.storage().instance().set(&DataKey::Admin,&admin);}";
    let f = truent::soroban::analyze_function("initialize", body, CONTRACT, KEYS);
    assert!(f.is_initialize);
    assert!(f.has_init_guard);
    assert_eq!(f.line, 7);
    let unguarded = "{env.storage().instance().set(&DataKey::Admin,&admin);}";
    let g = truent::soroban::analyze_function("initialize", unguarded, CONTRACT, KEYS);
    assert!(!g.has_init_guard);
}

#[test]
fn facts_of_an_unguarded_withdraw() {
    let body = "{letbalance:i128=env.storage().persistent().get(&DataKey::Balance(to.clone())).unwrap();letnew_balance=balance-amount;env.storage().persistent().set(&DataKey::Balance(to),&new_balance);}";
    let f = truent::soroban::analyze_function("withdraw", body, CONTRACT, KEYS);
    assert!(!f.has_require_auth);
    assert!(f.uses_unchecked_arithmetic);
    assert!(f.writes_persistent_storage);
    assert!(!f.extends_ttl);
    assert_eq!(f.unwrap_count, 1);
    assert!(!f.is_initialize);
    assert!(f.has_init_guard);
}

#[test]
fn facts_of_a_safe_withdraw() {
    let body = "{from.require_auth();letbalance:i128=env.storage().persistent().get(&DataKey::Balance(from.clone())).unwrap();letnew_balance=balance.checked_sub(amount).unwrap();env.storage().persistent().set(&DataKey::Balance(from),&new_balance);env.storage().persistent().extend_ttl(&DataKey::Balance(from),100,200);}";
    let f = truent::soroban::analyze_function("safe_withdraw", body, CONTRACT, KEYS);
    assert!(f.has_require_auth);
    assert!(!f.uses_unchecked_arithmetic);
    assert!(f.extends_ttl);
    assert_eq!(f.unwrap_count, 2);
}

#[test]
fn facts_of_calls_storage_and_prices() {
    let payout = "{letclient=token::Client::new(&env,&token);client.transfer(&env.current_contract_address(),&to,&amount);env.storage().persistent().set(&DataKey::Paid(to),&true);}";
    let f = truent::soroban::analyze_function("payout", payout, "", KEYS);
    assert!(f.external_call_before_storage_write);
    assert_eq!(f.line, 1);
    let cei = "{env.storage().persistent().set(&DataKey::Paid(to),&true);letclient=token::Client::new(&env,&token);}";
    assert!(!truent::soroban::analyze_function("payout", cei, "", KEYS).external_call_before_storage_write);
    let temp = "{env.storage().temporary().set(&DataKey::Balance(to),&x);}";
    assert!(truent::soroban::analyze_function("f", temp, "", KEYS).writes_temporary_storage_of_sensitive_state);
    assert!(!truent::soroban::analyze_function("f", temp, "", &["supply"]).writes_temporary_storage_of_sensitive_state);
    let spot = "{letp=oracle.get_price(&asset);}";
    assert!(truent::soroban::analyze_function("borrow", spot, "", KEYS).uses_single_source_price_oracle);
    let twap = "{letp=oracle.get_price(&asset);lett=TWAP::read();}";
    assert!(!truent::soroban::analyze_function("borrow", twap, "", KEYS).uses_single_source_price_oracle);
    let up = "{env.deployer().update_current_contract_wasm(h);}";
    assert!(truent::soroban::analyze_function("upgrade", up, "", KEYS).upgrades_wasm);
}

#[test]
fn the_program_model_records_contracts_and_flagged_patterns() {
    let mut withdraw = cf("withdraw", 11);
    withdraw.uses_unchecked_arithmetic = true;
    let mut safe = cf("safe_withdraw", 20);
    safe.has_require_auth = true;
    let model = truent::soroban::SorobanAnalyzer.program_model(
        "token.rs",
        &["TokenContract".to_string()],
        &[withdraw, safe],
    );
    assert_eq!(model.name, "soroban_contract");
    assert_eq!(model.chain, "soroban");
    assert_eq!(model.source_path, "token.rs");
    let var = model.state_vars.get("TokenContract").expect("contract struct");
    assert_eq!(var.var_type, "contract");
    assert_eq!(var.visibility.as_deref(), Some("public"));
    let w = model.functions.get("withdraw").expect("withdraw");
    assert!(w.is_entry_point);
    assert!(w.mutates.contains("SOROBAN_MISSING_REQUIRE_AUTH:11"));
    assert!(w.mutates.contains("SOROBAN_UNCHECKED_ARITHMETIC:11"));
    assert_eq!(w.mutates.len(), 2);
    let s = model.functions.get("safe_withdraw").expect("safe_withdraw");
    assert!(s.mutates.is_empty());
}
