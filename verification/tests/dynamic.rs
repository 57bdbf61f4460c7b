use truent::dynamic::{normalise, render_state, u128_from_word, BindError, FuzzConfig, Site};
use truent::strmap::StrMap;

#[test]
fn names_normalise_for_getter_matching() {
    assert_eq!(normalise("total_Supply"), "totalsupply");
    assert_eq!(normalise("totalSupply"), "totalsupply");
}

#[test]
fn words_read_as_numbers_when_they_fit() {
    let mut w = [0u8; 32];
    w[31] = 1;
    w[30] = 2;
    assert_eq!(u128_from_word(&w), Some(0x0201));
    w[0] = 1;
    assert_eq!(u128_from_word(&w), None);
}

#[test]
fn observed_state_is_listed_in_order() {
    let mut m = StrMap::new();
    m.insert("totalSupply".to_string(), 5u128);
    m.insert("balanceOf(1)".to_string(), 7u128);
    assert_eq!(render_state(&m), "violated with balanceOf(1) = 7, totalSupply = 5");
}

#[test]
fn site_keys_and_defaults() {
    assert_eq!(Site::Var("owner".to_string()).key(), "owner");
    assert_eq!(Site::Call { name: "balanceOf".to_string(), args: vec![1, -2] }.key(), "balanceOf(1,-2)");
    let c = FuzzConfig::default();
    assert_eq!((c.seed, c.max_runs, c.sequence_depth), (0, 500, 12));
}

#[test]
fn bind_errors_list_what_is_missing() {
    let e = BindError {
        invariant: "Conservation".to_string(),
        unbound: vec!["supply".to_string()],
        available: vec![],
    };
    assert_eq!(
        e.to_string(),
        "invariant 'Conservation' references a variable with no matching zero-argument view on the contract.\n  unbound: supply\n  available getters: (none)"
    );
}
