use truent::ui::{color_critical, color_dim};

#[test]
fn colours_wrap_text_in_escape_codes_when_forced() {
    colored::control::set_override(true);
    let c = color_critical("boom");
    assert_ne!(c, "boom");
    assert!(c.contains("boom"));
    assert!(c.starts_with("\u{1b}["));
    assert!(c.ends_with("\u{1b}[0m"));
    assert!(color_dim("x").starts_with("\u{1b}[2m"));
    colored::control::set_override(false);
    assert_eq!(color_critical("boom"), "boom");
}
