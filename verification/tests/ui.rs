use truent::ui::{
    bar_fill, run_status, RunStatus,
    divider, render_banner, render_check_header, render_doctor_results, render_error,
    render_no_violations, HealthCheck,
};

#[test]
fn test_banner_contains_expected_strings() {
    for tty in [false, true] {
        let banner = render_banner("0.1.1", tty);
        assert_eq!(banner.is_empty(), !tty);
        if !banner.is_empty() {
            assert!(banner.contains("Truent") || banner.is_empty());
            assert!(banner.contains("0.1.1") || banner.is_empty());
        }
    }
}

#[test]
fn test_banner_logo_structure() {
    for tty in [false, true] {
        let banner = render_banner("0.1.0", tty);
        assert_eq!(banner.is_empty(), !tty);
        if !banner.is_empty() {
            assert!(banner.contains("███"), "Banner should contain ASCII art");
        }
    }
}

#[test]
fn banner_is_empty_off_a_terminal() {
    assert_eq!(render_banner("0.1.0", false), "");
}

#[test]
fn banner_on_a_terminal_shows_logo_and_version() {
    let banner = render_banner("0.4.1", true);
    assert!(banner.contains("███"));
    assert!(banner.contains("Multi-chain Smart Contract Invariant Checker"));
    assert!(banner.contains("v0.4.1"));
    assert!(banner.ends_with('\n'));
}

#[test]
fn test_doctor_all_passed() {
    let checks = vec![
        HealthCheck {
            component: "truent-core".to_string(),
            passed: true,
            message: "Initialized successfully".to_string(),
        },
        HealthCheck {
            component: "EVM analyzer".to_string(),
            passed: true,
            message: "Initialized successfully".to_string(),
        },
    ];

    let output = render_doctor_results(&checks, 60);
    assert!(output.contains("Truent Doctor"));
    assert!(output.contains("truent-core"));
    assert!(output.contains("EVM analyzer"));
    assert!(output.contains("All 2 components healthy"));
}

#[test]
fn test_doctor_with_failures() {
    let checks = vec![
        HealthCheck {
            component: "truent-core".to_string(),
            passed: true,
            message: "OK".to_string(),
        },
        HealthCheck {
            component: "DSL parser".to_string(),
            passed: false,
            message: "Failed to initialize".to_string(),
        },
    ];

    let output = render_doctor_results(&checks, 60);
    assert!(output.contains("1 components have issues"));
}

#[test]
fn test_error_basic() {
    let msg = render_error("file not found", "No such file", None);
    assert!(msg.contains("error:"));
    assert!(msg.contains("file not found"));
    assert!(msg.contains("No such file"));
}

#[test]
fn test_error_with_hint() {
    let msg = render_error(
        "invalid config",
        "syntax error on line 5",
        Some("Check your TOML syntax"),
    );
    assert!(msg.contains("error:"));
    assert!(msg.contains("hint:"));
    assert!(msg.contains("Check your TOML syntax"));
}

#[test]
fn test_error_without_detail() {
    let msg = render_error("something went wrong", "", None);
    assert!(msg.contains("something went wrong"));
}

#[test]
fn test_header_contains_expected_parts() {
    let header = render_check_header("./contracts/Token.sol", "EVM", Some(".truent.toml"), true, 60);

    assert!(header.contains("Truent"));
    assert!(header.contains("./contracts/Token.sol"));
    assert!(header.contains("EVM"));
    assert!(header.contains(".truent.toml"));
    assert!(header.contains("found"));
}

#[test]
fn test_header_without_config() {
    let header = render_check_header("./src", "Solana", None, false, 60);

    assert!(header.contains("Truent"));
    assert!(header.contains("./src"));
    assert!(header.contains("Solana"));
}

#[test]
fn test_render_no_violations_message() {
    let msg = render_no_violations();
    assert!(msg.contains("No violations found"));
    assert!(msg.contains("All checks passed"));
}

#[test]
fn divider_repeats_the_rule_character() {
    assert_eq!(divider(3), "───");
    assert_eq!(divider(0), "");
}

#[test]
fn the_run_fails_only_on_reproduced_violations() {
    assert_eq!(run_status(1, 5), RunStatus::Fail);
    assert_eq!(run_status(0, 3), RunStatus::Review);
    assert_eq!(run_status(0, 0), RunStatus::Pass);
}

#[test]
fn severity_bars_round_up() {
    assert_eq!(bar_fill(0, 0), 0);
    assert_eq!(bar_fill(3, 3), 10);
    assert_eq!(bar_fill(1, 3), 4);
    assert_eq!(bar_fill(0, 7), 0);
}
