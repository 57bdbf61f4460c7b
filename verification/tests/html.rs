use truent::finding::Evidence;
use truent::html::html_report;
use truent::report::Violation;
use truent::ui::SeverityBreakdown;

fn v(id: &str, msg: &str) -> Violation {
    Violation {
        index: 1,
        total: 1,
        severity: "high".to_string(),
        title: id.to_string(),
        invariant_id: id.to_string(),
        location: "a.rs:3".to_string(),
        cwe: String::new(),
        message: msg.to_string(),
        recommendation: String::new(),
        reference: String::new(),
        code_snippet: String::new(),
        evidence: Evidence::Lead,
    }
}

#[test]
fn html_report_lists_counts_and_escaped_rows() {
    let b = SeverityBreakdown { critical: 0, high: 1, medium: 0, low: 0 };
    let page = html_report("vault.rs", "Soroban", "1.24", 44, 1, 43, &b, &[v("sor_x", "a < b > c")]);
    assert!(page.starts_with("<!DOCTYPE html>"));
    assert!(page.contains("<strong>Target:</strong> vault.rs<br>"));
    assert!(page.contains("<strong>Duration:</strong> 1.24s"));
    assert!(page.contains("<strong>Total Checks:</strong> 44<br>"));
    assert!(page.contains("<li><strong>High:</strong> 1 findings</li>"));
    assert!(page.contains("1 security violations detected"));
    assert!(page.contains(
        "<tr><td>sor_x</td><td>high</td><td>a.rs:3</td><td><code>a &lt; b &gt; c</code></td></tr>"
    ));
    assert!(page.ends_with("</html>"));
}

#[test]
fn html_report_without_violations_says_so() {
    let b = SeverityBreakdown { critical: 0, high: 0, medium: 0, low: 0 };
    let page = html_report("safe.rs", "Soroban", "0.01", 10, 0, 10, &b, &[]);
    assert!(page.contains("No security violations found!"));
    assert!(!page.contains("<tr><td>"));
}
