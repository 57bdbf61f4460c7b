use truent::summary::{box_line, render_summary, severity_bar, visible_length, AnalysisSummary};
use truent::ui::SeverityBreakdown;

fn render(summary: &AnalysisSummary, duration_secs: f64) -> String {
    render_summary(summary, &format!("{:.2}", duration_secs), 80)
}

#[test]
fn test_render_summary_with_violations() {
    let summary = AnalysisSummary {
        target: "./contracts/Token.sol".to_string(),
        chain: "EVM".to_string(),
        total_checks: 47,
        violations: 3,
        passed: 44,
        proven: 3,
        leads: 0,
        suppressed: 0,
        severity_breakdown: SeverityBreakdown { critical: 1, high: 1, medium: 1, low: 0 },
    };

    let rendered = render(&summary, 1.24);
    assert!(rendered.contains("Analysis Summary"));
    assert!(rendered.contains("./contracts/Token.sol"));
    assert!(rendered.contains("EVM"));
    assert!(rendered.contains("47"));
    assert!(rendered.contains("3"));
    assert!(rendered.contains("proven"));
    assert!(rendered.contains("leads"));
    assert!(rendered.contains("1.24"));
    assert!(rendered.contains("FAIL"));
}

#[test]
fn test_render_summary_no_violations() {
    let summary = AnalysisSummary {
        target: "./contracts/Safe.sol".to_string(),
        chain: "EVM".to_string(),
        total_checks: 100,
        violations: 0,
        passed: 100,
        proven: 0,
        leads: 0,
        suppressed: 0,
        severity_breakdown: SeverityBreakdown { critical: 0, high: 0, medium: 0, low: 0 },
    };

    let rendered = render(&summary, 2.5);
    assert!(rendered.contains("Analysis Summary"));
    assert!(rendered.contains("PASS"));
    assert!(rendered.contains("100"));
}

fn summary(proven: usize, leads: usize) -> AnalysisSummary {
    AnalysisSummary {
        target: "t.sol".to_string(),
        chain: "EVM".to_string(),
        total_checks: 10,
        violations: proven + leads,
        passed: 0,
        proven,
        leads,
        suppressed: 0,
        severity_breakdown: SeverityBreakdown {
            critical: 0,
            high: 0,
            medium: proven + leads,
            low: 0,
        },
    }
}

#[test]
fn leads_alone_are_a_review_not_a_failure() {
    let rendered = render(&summary(0, 12), 0.1);
    assert!(rendered.contains("REVIEW"), "{rendered}");
    assert!(!rendered.contains("FAIL"), "{rendered}");
}

#[test]
fn a_reproduced_violation_fails() {
    let rendered = render(&summary(1, 0), 0.1);
    assert!(rendered.contains("FAIL"), "{rendered}");
}

#[test]
fn nothing_found_passes() {
    let rendered = render(&summary(0, 0), 0.1);
    assert!(rendered.contains("PASS"), "{rendered}");
}

#[test]
fn the_dashboard_has_twenty_lines_after_a_blank_one() {
    let rendered = render(&summary(0, 12), 0.1);
    assert!(rendered.starts_with('\n'));
    assert_eq!(rendered.lines().count(), 21);
    assert!(rendered.contains("REVIEW — 12 unproven lead(s), 0 reproduced"));
}

#[test]
fn box_lines_pad_to_the_width_ignoring_escape_codes() {
    assert_eq!(visible_length("\x1b[1;37mab\x1b[0mc"), 3);
    let line = box_line("abc", 10);
    assert_eq!(visible_length(&line), 10);
    assert_eq!(severity_bar(1, 3), "████░░░░░░");
    assert_eq!(severity_bar(0, 0), "░░░░░░░░░░");
}
