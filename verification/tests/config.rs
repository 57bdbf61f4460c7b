use truent::config::{
    expand_env_vars_with, validate_config, AlertConfig, ChainConfig, InvariantConfig,
    PoolConfig, RetryConfig,
};
use truent::strmap::StrMap;

fn chain(id: &str) -> ChainConfig {
    ChainConfig {
        id: id.to_string(),
        chain_type: "evm".to_string(),
        chain_id: 1,
        rpc_urls: vec!["https://eth.example.com".to_string()],
        ws_url: None,
        poll_interval_ms: 1000,
        timeout_ms: 30000,
        retry: RetryConfig::default(),
        pool: PoolConfig::default(),
    }
}

fn invariant_config(name: &str, chain: &str) -> InvariantConfig {
    InvariantConfig {
        name: name.to_string(),
        description: None,
        chain: chain.to_string(),
        contract: "0x1234".to_string(),
        check: "x > 0".to_string(),
        baseline_block: None,
        severity: "medium".to_string(),
        tags: vec![],
    }
}

#[test]
fn a_consistent_configuration_validates() {
    assert!(validate_config(&[chain("ethereum")], &[invariant_config("t", "ethereum")], &AlertConfig::default()).is_ok());
}

#[test]
fn an_unknown_chain_reference_is_refused() {
    let err = validate_config(&[chain("ethereum")], &[invariant_config("t", "solana")], &AlertConfig::default())
        .unwrap_err();
    assert_eq!(
        err.message,
        "Invariant 't' references unknown chain 'solana'. Configured chains: [\"ethereum\"]"
    );
}

#[test]
fn configuration_errors_in_order() {
    assert_eq!(
        validate_config(&[], &[invariant_config("t", "x")], &AlertConfig::default()).unwrap_err().message,
        "At least one chain must be configured in [[chains]]"
    );
    assert_eq!(
        validate_config(&[chain("a"), chain("a")], &[], &AlertConfig::default()).unwrap_err().message,
        "Duplicate chain ID: a"
    );
    assert_eq!(
        validate_config(&[chain("a")], &[], &AlertConfig::default()).unwrap_err().message,
        "At least one invariant must be configured in [[invariants]]"
    );
    assert_eq!(
        validate_config(&[chain("a")], &[invariant_config("t", "a"), invariant_config("t", "a")], &AlertConfig::default())
            .unwrap_err()
            .message,
        "Duplicate invariant name: t"
    );
}

#[test]
fn variables_are_substituted_from_the_map() {
    let mut vars = StrMap::new();
    vars.insert("TEST_RPC_URL".to_string(), "https://test.example.com".to_string());
    assert_eq!(
        expand_env_vars_with("rpc = \"${TEST_RPC_URL}\"", &vars).unwrap(),
        "rpc = \"https://test.example.com\""
    );
}

#[test]
fn missing_or_unclosed_variables_are_errors() {
    let vars: StrMap<String> = StrMap::new();
    let missing = expand_env_vars_with("${NONEXISTENT_VAR_12345}", &vars).unwrap_err();
    assert!(missing.message.starts_with("Environment variable not set: NONEXISTENT_VAR_12345."));
    let unclosed = expand_env_vars_with("x = ${OPEN", &vars).unwrap_err();
    assert_eq!(unclosed.message, "Unclosed environment variable reference: ${");
}

fn configured_chain(id: &str, chain_id: u64, rpc: &str) -> ChainConfig {
    ChainConfig {
        id: id.to_string(),
        chain_type: "evm".to_string(),
        chain_id,
        rpc_urls: vec![rpc.to_string()],
        ws_url: None,
        poll_interval_ms: truent::config::default_poll_interval(),
        timeout_ms: truent::config::default_timeout(),
        retry: RetryConfig::default(),
        pool: PoolConfig::default(),
    }
}

fn configured_invariant(chain: &str) -> InvariantConfig {
    InvariantConfig {
        name: "test_invariant".to_string(),
        description: None,
        chain: chain.to_string(),
        contract: "0x1234".to_string(),
        check: "x > 0".to_string(),
        baseline_block: None,
        severity: truent::config::default_severity(),
        tags: vec![],
    }
}

const TOML_WITH_VAR: &str = r#"
            [metadata]
            name = "test"
            version = "1.0"

            [[chains]]
            id = "ethereum"
            type = "evm"
            chain_id = 1
            rpc_urls = ["${TEST_RPC_URL}"]

            [[invariants]]
            name = "test_invariant"
            chain = "ethereum"
            contract = "0x1234"
            check = "x > 0"
        "#;

#[test]
fn test_config_validation() {
    let chains = [configured_chain("ethereum", 1, "https://eth.example.com")];
    let invariants = [configured_invariant("ethereum")];
    let config = validate_config(&chains, &invariants, &AlertConfig::default());
    assert!(config.is_ok());
}

#[test]
fn test_missing_chain_reference() {
    let chains = [configured_chain("ethereum", 1, "https://eth.example.com")];
    let invariants = [configured_invariant("solana")];
    let config = validate_config(&chains, &invariants, &AlertConfig::default());
    assert!(config.is_err());
}

#[test]
fn test_env_var_substitution() {
    let mut vars = StrMap::new();
    vars.insert("TEST_RPC_URL".to_string(), "https://test.example.com".to_string());
    let expanded = expand_env_vars_with(TOML_WITH_VAR, &vars);
    assert!(expanded.is_ok());
    let text = expanded.unwrap();
    let parsed: toml::Value = toml::from_str(&text).expect("valid TOML");
    let rpc = parsed["chains"][0]["rpc_urls"][0].as_str().expect("string");
    assert_eq!(rpc, "https://test.example.com");

    let chains = [configured_chain("ethereum", 1, rpc)];
    let invariants = [configured_invariant("ethereum")];
    assert!(validate_config(&chains, &invariants, &AlertConfig::default()).is_ok());
    assert_eq!(chains[0].rpc_urls[0], "https://test.example.com");
}

#[test]
fn test_missing_env_var() {
    let toml_with_missing_var = r#"
            [metadata]
            name = "test"
            version = "1.0"

            [[chains]]
            id = "ethereum"
            type = "evm"
            chain_id = 1
            rpc_urls = ["${NONEXISTENT_VAR_12345"}"]

            [[invariants]]
            name = "test_invariant"
            chain = "ethereum"
            contract = "0x1234"
            check = "x > 0"
        "#;
    let vars: StrMap<String> = StrMap::new();
    let config = expand_env_vars_with(toml_with_missing_var, &vars);
    assert!(config.is_err());
}
