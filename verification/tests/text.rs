use truent::strmap::{sort_strings, StrMap, StrSet};
use truent::text::{join_strings, replace_all, u128_to_string};
use truent::words::split_whitespace;
use truent::test_infrastructure::{extract_code_context, generate_variant};

#[test]
fn maps_keep_keys_sorted_and_replace_values() {
    let mut m = StrMap::new();
    m.insert("b".to_string(), 1);
    m.insert("a".to_string(), 2);
    m.insert("b".to_string(), 3);
    assert_eq!(m.keys(), vec!["a".to_string(), "b".to_string()]);
    assert_eq!(m.get("b"), Some(&3));
    assert_eq!(m.len(), 2);
    let mut s = StrSet::new();
    s.insert("y".to_string());
    s.insert("x".to_string());
    s.insert("y".to_string());
    assert_eq!(s.items(), vec!["x".to_string(), "y".to_string()]);
}

#[test]
fn text_helpers() {
    assert_eq!(sort_strings(&vec!["b".to_string(), "a".to_string()]), vec!["a".to_string(), "b".to_string()]);
    assert_eq!(join_strings(&["x".to_string(), "y".to_string()], ", "), "x, y");
    assert_eq!(replace_all("a-b-c", "-", "+"), "a+b+c");
    assert_eq!(u128_to_string(340282366920938463463374607431768211455), "340282366920938463463374607431768211455");
    assert_eq!(split_whitespace("  a\tbc \u{3000}d \n"), vec!["a".to_string(), "bc".to_string(), "d".to_string()]);
}

#[test]
fn code_context_and_variants() {
    let code = "l0\nl1\nl2\nl3\nl4";
    assert_eq!(extract_code_context(code, 2, 1), "l1\nl2");
    assert_eq!(extract_code_context(code, 0, 10), "l0\nl1\nl2\nl3\nl4");
    assert_eq!(generate_variant("a // MUTATION_POINT b", "x += 1;"), "a x += 1; b");
}

#[test]
fn replacing_an_empty_pattern_surrounds_every_character() {
    assert_eq!(truent::text::replace_all("abc", "", "-"), "abc".replace("", "-"));
    assert_eq!(truent::text::replace_all("", "", "-"), "-");
    assert_eq!(truent::text::replace_all("a b c", " ", ""), "abc");
}
