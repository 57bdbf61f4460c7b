use truent::evm_abi::{
    erc20_mutator_functions, erc20_probe_functions, ownable_mutator_functions,
    ownable_probe_functions, param_kind_for, parse_abi, parse_bytecode, selector_for,
    selector_from_digest, JsonValue,
};
use truent::dynamic::ParamKind;

const SAMPLE_ABI: &str = r#"[
    {"type":"function","name":"totalSupply","inputs":[],"stateMutability":"view"},
    {"type":"function","name":"balanceOf","inputs":[{"type":"address"}],"stateMutability":"view"},
    {"type":"function","name":"transfer","inputs":[{"type":"address"},{"type":"uint256"}],"stateMutability":"nonpayable"},
    {"type":"function","name":"deposit","inputs":[],"stateMutability":"payable"},
    {"type":"event","name":"Transfer","inputs":[]},
    {"type":"function","name":"unsupported","inputs":[{"type":"bytes"}],"stateMutability":"nonpayable"}
]"#;

fn json(v: &serde_json::Value) -> JsonValue {
    match v {
        serde_json::Value::Null => JsonValue::Null,
        serde_json::Value::Bool(b) => JsonValue::Bool(*b),
        serde_json::Value::Number(n) => JsonValue::Number(n.to_string()),
        serde_json::Value::String(s) => JsonValue::String(s.clone()),
        serde_json::Value::Array(items) => JsonValue::Array(items.iter().map(json).collect()),
        serde_json::Value::Object(m) => {
            JsonValue::Object(m.iter().map(|(k, v)| (k.clone(), json(v))).collect())
        }
    }
}

fn sample() -> JsonValue {
    json(&serde_json::from_str(SAMPLE_ABI).unwrap())
}

#[test]
fn selector_matches_known_weth9_constants() {
    assert_eq!(selector_for("deposit", &[]), [0xd0, 0xe3, 0x0d, 0xb0]);
    assert_eq!(selector_for("withdraw", &["uint256"]), [0x2e, 0x1a, 0x7d, 0x4d]);
}

#[test]
fn selectors_match_independently_known_constants() {
    assert_eq!(selector_for("totalSupply", &[]), [0x18, 0x16, 0x0d, 0xdd]);
    assert_eq!(selector_for("balanceOf", &["address"]), [0x70, 0xa0, 0x82, 0x31]);
    assert_eq!(selector_for("decimals", &[]), [0x31, 0x3c, 0xe5, 0x67]);
    assert_eq!(selector_for("transfer", &["address", "uint256"]), [0xa9, 0x05, 0x9c, 0xbb]);
    assert_eq!(selector_for("approve", &["address", "uint256"]), [0x09, 0x5e, 0xa7, 0xb3]);
    assert_eq!(
        selector_for("transferFrom", &["address", "address", "uint256"]),
        [0x23, 0xb8, 0x72, 0xdd]
    );
    assert_eq!(selector_for("owner", &[]), [0x8d, 0xa5, 0xcb, 0x5b]);
    assert_eq!(selector_for("transferOwnership", &["address"]), [0xf2, 0xfd, 0xe3, 0x8b]);
}

#[test]
fn probe_function_lists_match_their_computed_selectors() {
    let erc20 = erc20_probe_functions();
    assert_eq!(erc20[0].selector, selector_for("totalSupply", &[]));
    let ownable = ownable_probe_functions();
    assert_eq!(ownable[0].selector, selector_for("owner", &[]));
    assert_eq!(erc20_mutator_functions()[2].name, "transferFrom");
    assert!(ownable_mutator_functions()[0].mutates_state);
}

#[test]
fn parses_functions_and_skips_events_and_unsupported_types() {
    let functions = parse_abi(&sample());
    let names: Vec<&str> = functions.iter().map(|f| f.name.as_str()).collect();
    assert!(names.contains(&"totalSupply"));
    assert!(names.contains(&"balanceOf"));
    assert!(names.contains(&"transfer"));
    assert!(names.contains(&"deposit"));
    assert!(!names.contains(&"Transfer"), "events must not be parsed as callable functions");
    assert!(
        !names.contains(&"unsupported"),
        "functions with unsupported param types must be skipped, not mis-encoded"
    );
}

#[test]
fn view_and_payable_mutability_is_captured_correctly() {
    let functions = parse_abi(&sample());
    let total_supply = functions.iter().find(|f| f.name == "totalSupply").unwrap();
    assert!(!total_supply.mutates_state, "view functions must not be treated as mutators");
    let transfer = functions.iter().find(|f| f.name == "transfer").unwrap();
    assert!(transfer.mutates_state);
    assert!(!transfer.payable);
    assert_eq!(transfer.inputs, vec![ParamKind::Address, ParamKind::Uint256]);
    assert_eq!(transfer.selector, [0xa9, 0x05, 0x9c, 0xbb]);
    let deposit = functions.iter().find(|f| f.name == "deposit").unwrap();
    assert!(deposit.mutates_state);
    assert!(deposit.payable);
}

#[test]
fn parse_bytecode_handles_0x_prefix_and_rejects_empty() {
    assert_eq!(parse_bytecode("0xdeadbeef").unwrap(), vec![0xde, 0xad, 0xbe, 0xef]);
    assert_eq!(parse_bytecode("deadbeef").unwrap(), vec![0xde, 0xad, 0xbe, 0xef]);
    assert!(parse_bytecode("").is_err());
}

#[test]
fn bytecode_errors_name_the_problem() {
    assert_eq!(
        parse_bytecode("0x").unwrap_err(),
        "empty bytecode — is this an interface/abstract contract?"
    );
    assert_eq!(
        parse_bytecode("abc").unwrap_err(),
        "invalid hex in solc bytecode output: Odd number of digits"
    );
    assert_eq!(
        parse_bytecode("0xzz").unwrap_err(),
        "invalid hex in solc bytecode output: Invalid character 'z' at position 0"
    );
    assert_eq!(parse_bytecode("AbCd").unwrap(), vec![0xab, 0xcd]);
}

#[test]
fn parameter_kinds() {
    assert_eq!(param_kind_for("uint8"), Some(ParamKind::Uint256));
    assert_eq!(param_kind_for("address"), Some(ParamKind::Address));
    assert_eq!(param_kind_for("int256"), None);
    assert_eq!(param_kind_for("string"), None);
}

#[test]
fn digests_give_their_first_four_bytes() {
    let mut d = [0u8; 32];
    d[0] = 1;
    d[3] = 4;
    d[4] = 5;
    assert_eq!(selector_from_digest(&d), [1, 0, 0, 4]);
}

#[test]
fn non_arrays_have_no_functions() {
    assert!(parse_abi(&JsonValue::Null).is_empty());
    let obj = JsonValue::Object(vec![("type".to_string(), JsonValue::String("function".to_string()))]);
    assert!(parse_abi(&obj).is_empty());
    assert_eq!(obj.get("type").map(|v| matches!(v, JsonValue::String(_))), Some(true));
}

#[test]
fn evm_addresses_parse_with_or_without_prefix() {
    let a = truent::evm_abi::parse_evm_address("0x00112233445566778899aabbccddeeff00112233").unwrap();
    assert_eq!(a[0], 0x00);
    assert_eq!(a[1], 0x11);
    assert_eq!(a[19], 0x33);
    let b = truent::evm_abi::parse_evm_address("00112233445566778899AABBCCDDEEFF00112233").unwrap();
    assert_eq!(a, b);
}

#[test]
fn evm_address_errors_name_the_input() {
    assert_eq!(
        truent::evm_abi::parse_evm_address("0x1234").unwrap_err(),
        "invalid address '0x1234': expected 20 bytes, got 2"
    );
    assert_eq!(
        truent::evm_abi::parse_evm_address("0x123").unwrap_err(),
        "invalid address '0x123': Odd number of digits"
    );
    assert_eq!(
        truent::evm_abi::parse_evm_address("zz").unwrap_err(),
        "invalid address 'zz': Invalid character 'z' at position 0"
    );
}
