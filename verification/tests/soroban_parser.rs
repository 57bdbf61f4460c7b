use std::collections::HashSet;
use truent::soroban::{
    detect_all, detect_thin_liquidity_oracle_price, parse_contract_functions, SorobanAnalyzer,
};

const KEYS: &[&str] = &["admin", "balance"];

const CONTRACT: &str = r#"
#[contract]
pub struct TokenContract;

#[contractimpl]
impl TokenContract {
    pub fn initialize(env: Env, admin: Address) {
        if env.storage().instance().has(&DataKey::Admin) {
            panic!("already initialized");
        }
        env.storage().instance().set(&DataKey::Admin, &admin);
    }

    pub fn withdraw(env: Env, to: Address, amount: i128) {
        let balance: i128 = env.storage().persistent().get(&DataKey::Balance(to.clone())).unwrap();
        let new_balance = balance - amount;
        env.storage().persistent().set(&DataKey::Balance(to), &new_balance);
    }

    pub fn safe_withdraw(env: Env, from: Address, to: Address, amount: i128) {
        from.require_auth();
        let balance: i128 = env.storage().persistent().get(&DataKey::Balance(from.clone())).unwrap();
        let new_balance = balance.checked_sub(amount).unwrap();
        env.storage().persistent().set(&DataKey::Balance(from), &new_balance);
        env.storage().persistent().extend_ttl(&DataKey::Balance(from), 100, 200);
    }
}
"#;

#[test]
fn parses_contractimpl_functions_only() {
    let functions = parse_contract_functions(CONTRACT, KEYS).unwrap();
    let names: Vec<_> = functions.iter().map(|f| f.name.as_str()).collect();
    assert_eq!(names, vec!["initialize", "withdraw", "safe_withdraw"]);
}

#[test]
fn detects_init_guard() {
    let functions = parse_contract_functions(CONTRACT, KEYS).unwrap();
    let init = functions.iter().find(|f| f.name == "initialize").unwrap();
    assert!(init.is_initialize);
    assert!(init.has_init_guard);
}

#[test]
fn detects_missing_require_auth_and_unchecked_arithmetic() {
    let functions = parse_contract_functions(CONTRACT, KEYS).unwrap();
    let withdraw = functions.iter().find(|f| f.name == "withdraw").unwrap();
    assert!(!withdraw.has_require_auth);
    assert!(withdraw.uses_unchecked_arithmetic);
    assert!(withdraw.writes_persistent_storage);
    assert!(!withdraw.extends_ttl);
}

#[test]
fn recognizes_safe_function() {
    let functions = parse_contract_functions(CONTRACT, KEYS).unwrap();
    let safe = functions
        .iter()
        .find(|f| f.name == "safe_withdraw")
        .unwrap();
    assert!(safe.has_require_auth);
    assert!(!safe.uses_unchecked_arithmetic);
    assert!(safe.extends_ttl);
}

#[test]
fn functions_outside_contractimpl_and_private_ones_are_skipped() {
    let source = r#"
impl Helper {
    pub fn helper(env: Env) {}
}

#[contractimpl]
impl Token {
    fn private_one(env: Env) {}
    pub(crate) fn crate_one(env: Env) {}
    pub fn public_one(env: Env) {}
    const LIMIT: u32 = 3;
}
"#;
    let functions = parse_contract_functions(source, KEYS).unwrap();
    let names: Vec<_> = functions.iter().map(|f| f.name.as_str()).collect();
    assert_eq!(names, vec!["public_one"]);
    assert_eq!(functions[0].line, 10);
}

#[test]
fn unparseable_source_is_an_error() {
    assert!(parse_contract_functions("this is not valid rust {{{", KEYS).is_err());
}

const VULNERABLE: &str = r#"
#[contract]
pub struct VaultContract;

#[contractimpl]
impl VaultContract {
    pub fn initialize(env: Env, admin: Address) {
        env.storage().instance().set(&DataKey::Admin, &admin);
    }

    pub fn withdraw(env: Env, to: Address, amount: i128) {
        let balance: i128 = env.storage().persistent().get(&DataKey::Balance(to.clone())).unwrap();
        let new_balance = balance - amount;
        env.storage().persistent().set(&DataKey::Balance(to.clone()), &new_balance);
        env.storage().temporary().set(&DataKey::Balance(to), &new_balance);
    }

    pub fn upgrade(env: Env, new_wasm_hash: BytesN<32>) {
        env.deployer().update_current_contract_wasm(new_wasm_hash);
    }

    pub fn payout(env: Env, token: Address, to: Address, amount: i128) {
        let client = token::Client::new(&env, &token);
        client.transfer(&env.current_contract_address(), &to, &amount);
        env.storage().persistent().set(&DataKey::Paid(to), &true);
    }
}
"#;

#[test]
fn flags_every_vulnerable_pattern() {
    let functions = parse_contract_functions(VULNERABLE, KEYS).unwrap();
    let findings = detect_all(&functions, "vault.rs");
    let ids: HashSet<_> = findings.iter().map(|f| f.invariant_id.as_str()).collect();

    assert!(ids.contains("sor_missing_require_auth"));
    assert!(ids.contains("sor_unprotected_upgrade"));
    assert!(ids.contains("sor_reinitialization"));
    assert!(ids.contains("sor_unchecked_arithmetic"));
    assert!(ids.contains("sor_storage_ttl_not_extended"));
    assert!(ids.contains("sor_temporary_storage_critical_state"));
    assert!(ids.contains("sor_reentrancy_external_call"));
    assert!(ids.contains("sor_unhandled_panic"));
}

#[test]
fn flags_single_source_spot_price_read() {
    let source = r#"
#[contract]
pub struct LendingContract;

#[contractimpl]
impl LendingContract {
    pub fn borrow(env: Env, from: Address, amount: i128) {
        from.require_auth();
        let price = pool_client.get_price(&env);
        let collateral_value = price * amount;
        env.storage().persistent().set(&DataKey::Debt(from), &collateral_value);
    }
}
"#;
    let functions = parse_contract_functions(source, KEYS).unwrap();
    let findings = detect_thin_liquidity_oracle_price(&functions, "lending.rs");
    assert!(findings
        .iter()
        .any(|f| f.invariant_id == "sor_thin_liquidity_oracle_price"));
}

#[test]
fn does_not_flag_twap_price_read() {
    let source = r#"
#[contract]
pub struct LendingContract;

#[contractimpl]
impl LendingContract {
    pub fn borrow(env: Env, from: Address, amount: i128) {
        from.require_auth();
        let price = pool_client.get_price(&env);
        let twap_price = compute_time_weighted_average(&env, price);
        let collateral_value = twap_price * amount;
        env.storage().persistent().set(&DataKey::Debt(from), &collateral_value);
    }
}
"#;
    let functions = parse_contract_functions(source, KEYS).unwrap();
    let findings = detect_thin_liquidity_oracle_price(&functions, "safe_lending.rs");
    assert!(!findings
        .iter()
        .any(|f| f.invariant_id == "sor_thin_liquidity_oracle_price"));
}

const SMALL: &str = r#"
#[contract]
pub struct TokenContract;

#[contractimpl]
impl TokenContract {
    pub fn initialize(env: Env, admin: Address) {
        env.storage().instance().set(&DataKey::Admin, &admin);
    }

    pub fn withdraw(env: Env, to: Address, amount: i128) {
        env.storage().persistent().set(&DataKey::Balance(to), &amount);
    }
}
"#;

#[test]
fn test_analyze_soroban_contract() {
    let analyzer = SorobanAnalyzer;
    let result = analyzer.analyze("lib.rs", SMALL, KEYS).unwrap();

    assert_eq!(result.chain, "soroban");
    assert_eq!(result.functions.len(), 2);
    assert!(result.state_vars.contains_key("TokenContract"));
}

#[test]
fn test_analyze_empty_rust_file() {
    let analyzer = SorobanAnalyzer;
    let result = analyzer.analyze("empty.rs", "", KEYS).unwrap();

    assert_eq!(result.functions.len(), 0);
}

#[test]
fn test_analyze_malformed_rust() {
    let analyzer = SorobanAnalyzer;
    let result = analyzer.analyze("bad.rs", r#"fn broken_function( { invalid rust code }"#, KEYS);
    assert!(result.is_err());
}

#[test]
fn detection_over_source_text() {
    let findings = truent::soroban::detect_in_source(VULNERABLE, "vault.rs");
    let ids: HashSet<_> = findings.iter().map(|f| f.invariant_id.as_str()).collect();
    assert!(ids.contains("sor_missing_require_auth"));
    assert!(ids.contains("sor_reinitialization"));
    assert!(ids.contains("sor_temporary_storage_critical_state"));
    assert!(truent::soroban::detect_in_source("this is not valid rust {{{", "bad.rs").is_empty());
}

const VULNERABLE_VAULT: &str = r#"
#[contract]
pub struct VaultContract;

#[contractimpl]
impl VaultContract {
    pub fn initialize(env: Env, admin: Address) {
        env.storage().instance().set(&DataKey::Admin, &admin);
    }

    pub fn withdraw(env: Env, to: Address, amount: i128) {
        let balance: i128 = env.storage().persistent().get(&DataKey::Balance(to.clone())).unwrap();
        let new_balance = balance - amount;
        env.storage().persistent().set(&DataKey::Balance(to), &new_balance);
    }
}
"#;

#[test]
fn run_all_detectors_includes_shared_and_chain_specific_findings() {
    let findings = truent::soroban::detect_in_source(VULNERABLE_VAULT, "vault.rs");
    let ids: HashSet<_> = findings.iter().map(|f| f.invariant_id.as_str()).collect();

    assert!(ids.contains("sor_missing_require_auth"));
    assert!(ids.contains("sor_reinitialization"));
    assert!(ids.contains(truent::ir::rules::UNAUTHORIZED_PRIVILEGED_MUTATION));
}

#[test]
fn run_all_detectors_never_panics_on_unparseable_source() {
    let findings = truent::soroban::detect_in_source("this is not valid rust {{{", "bad.rs");
    assert!(findings.is_empty());
}
