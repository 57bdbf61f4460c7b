//! The HTML report of an analysis: a summary box, the counts by severity
//! and a table of the violations, with `<` and `>` in messages escaped.
use vstd::prelude::*;
use crate::report::Violation;
use crate::text::{dec_digits, joined, join_strings, push_str, push_u128, replace_all, replaced};
use crate::ui::{SeverityBreakdown, VERSION};

verus! {

/// The page up to the target's name.
pub const HTML_HEAD: &'static str = "<!DOCTYPE html>
<html lang=\"en\">
<head>
    <meta charset=\"UTF-8\">
    <meta name=\"viewport\" content=\"width=device-width, initial-scale=1.0\">
    <title>Truent Security Report</title>
    <style>
        body {
            font-family: -apple-system, BlinkMacSystemFont, 'Segoe UI', Roboto, Oxygen, Ubuntu, Cantarell, sans-serif;
            margin: 20px;
            background-color: #f6f8fb;
            color: #24292e;
        }
        .container {
            max-width: 1200px;
            margin: 0 auto;
            background: white;
            padding: 20px;
            border-radius: 8px;
            box-shadow: 0 1px 3px rgba(0,0,0,0.1);
        }
        h1 {
            color: #0366d6;
            border-bottom: 2px solid #e1e4e8;
            padding-bottom: 10px;
        }
        .summary {
            display: grid;
            grid-template-columns: 1fr 1fr;
            gap: 20px;
            margin: 20px 0;
        }
        .summary-box {
            background: #f6f8fa;
            padding: 15px;
            border-radius: 6px;
            border-left: 4px solid #0366d6;
        }
        .summary-box strong {
            font-size: 18px;
            color: #0366d6;
        }
        table {
            width: 100%;
            border-collapse: collapse;
            margin: 20px 0;
        }
        th {
            background-color: #f6f8fa;
            padding: 12px;
            text-align: left;
            font-weight: 600;
            border-bottom: 2px solid #e1e4e8;
        }
        td {
            padding: 12px;
            border-bottom: 1px solid #e1e4e8;
        }
        tr:hover {
            background-color: #f6f8fa;
        }
        .severity-critical {
            color: #d73a49;
            font-weight: 600;
        }
        .severity-high {
            color: #fd7e14;
            font-weight: 600;
        }
        .severity-medium {
            color: #ffc107;
            font-weight: 600;
        }
        .severity-low {
            color: #6f42c1;
            font-weight: 600;
        }
        .timestamp {
            color: #6a737d;
            font-size: 12px;
            margin-top: 20px;
        }
    </style>
</head>
<body>
    <div class=\"container\">
        <h1>🔐 Truent Security Analysis Report</h1>
        
        <div class=\"summary\">
            <div class=\"summary-box\">
                <strong>Target:</strong> ";

/// Between the target and the chain.
pub const HTML_CHAIN: &'static str = "<br>
                <strong>Chain:</strong> ";

/// Between the chain and the duration.
pub const HTML_DURATION: &'static str = "<br>
                <strong>Duration:</strong> ";

/// Between the duration and the number of checks.
pub const HTML_CHECKS: &'static str = "s
            </div>
            <div class=\"summary-box\">
                <strong>Total Checks:</strong> ";

/// Between the checks and the number of violations.
pub const HTML_FOUND: &'static str = "<br>
                <strong>Violations Found:</strong> ";

/// Between the violations and the number passed.
pub const HTML_PASSED: &'static str = "<br>
                <strong>Passed:</strong> ";

/// Between the number passed and the severity list.
pub const HTML_SEVERITIES: &'static str = "
            </div>
        </div>

        <h2>Severity Breakdown</h2>
        <ul>
            ";

/// Between the severity list and the findings line.
pub const HTML_FINDINGS: &'static str = "
        </ul>

        <h2>Findings</h2>
        ";

/// Between the findings line and the table rows.
pub const HTML_TABLE: &'static str = "
        
        <table>
            <thead>
                <tr>
                    <th>Invariant</th>
                    <th>Severity</th>
                    <th>Location</th>
                    <th>Message</th>
                </tr>
            </thead>
            <tbody>
                ";

/// Between the table rows and the version.
pub const HTML_FOOT: &'static str = "
            </tbody>
        </table>

        <div class=\"timestamp\">
            Truent v";

/// The end of the page.
pub const HTML_END: &'static str = "
        </div>
    </div>
</body>
</html>";

/// The line shown when nothing was found.
pub const HTML_NONE_FOUND: &'static str = "<p style=\"color: #28a745; font-weight: 600;\">✓ No security violations found!</p>";

/// `s` with `<` and `>` written as the HTML entities.
pub open spec fn html_escaped(s: Seq<char>) -> Seq<char> {
    replaced(replaced(s, "<"@, "&lt;"@), ">"@, "&gt;"@)
}

/// The table row of a violation.
pub open spec fn violation_row(v: Violation) -> Seq<char> {
    "<tr><td>"@ + v.invariant_id@ + "</td><td>"@ + v.severity@ + "</td><td>"@ + v.location@
        + "</td><td><code>"@ + html_escaped(v.message@) + "</code></td></tr>"@
}

/// The list of counts by severity.
pub open spec fn severity_list(b: SeverityBreakdown) -> Seq<char> {
    "<li><strong>Critical:</strong> "@ + dec_digits(b.critical as nat) + " findings</li>\n"@
        + "<li><strong>High:</strong> "@ + dec_digits(b.high as nat) + " findings</li>\n"@
        + "<li><strong>Medium:</strong> "@ + dec_digits(b.medium as nat) + " findings</li>\n"@
        + "<li><strong>Low:</strong> "@ + dec_digits(b.low as nat) + " findings</li>"@
}

/// The line above the table.
pub open spec fn findings_line(n: nat) -> Seq<char> {
    if n == 0 {
        HTML_NONE_FOUND@
    } else {
        "<p style=\"color: #d73a49;\">⚠️ "@ + dec_digits(n) + " security violations detected</p>"@
    }
}

/// The HTML report: the target, chain and duration (in seconds, as text),
/// the numbers of checks, violations and passed checks, the counts by
/// severity, and a row for each violation, its message escaped.
pub open spec fn html_report_text(
    target: Seq<char>,
    chain: Seq<char>,
    duration: Seq<char>,
    total_checks: nat,
    violations: nat,
    passed: nat,
    b: SeverityBreakdown,
    items: Seq<Violation>,
) -> Seq<char> {
    HTML_HEAD@ + target + HTML_CHAIN@ + chain + HTML_DURATION@ + duration + HTML_CHECKS@
        + dec_digits(total_checks) + HTML_FOUND@ + dec_digits(violations) + HTML_PASSED@
        + dec_digits(passed) + HTML_SEVERITIES@ + severity_list(b) + HTML_FINDINGS@
        + findings_line(items.len()) + HTML_TABLE@ + joined(
        items.map_values(|v: Violation| violation_row(v)),
        "\n"@,
    ) + HTML_FOOT@ + VERSION@ + HTML_END@
}

fn row_of(v: &Violation) -> (r: String)
    ensures
        r@ == violation_row(*v),
{
    let lt = replace_all(v.message.as_str(), "<", "&lt;");
    let msg = replace_all(lt.as_str(), ">", "&gt;");
    let mut s = String::new();
    push_str(&mut s, "<tr><td>");
    push_str(&mut s, v.invariant_id.as_str());
    push_str(&mut s, "</td><td>");
    push_str(&mut s, v.severity.as_str());
    push_str(&mut s, "</td><td>");
    push_str(&mut s, v.location.as_str());
    push_str(&mut s, "</td><td><code>");
    push_str(&mut s, msg.as_str());
    push_str(&mut s, "</code></td></tr>");
    assert(s@ =~= violation_row(*v));
    s
}

fn push_count(s: &mut String, label: &str, n: usize, last: bool)
    ensures
        final(s)@ == old(s)@ + "<li><strong>"@ + label@ + ":</strong> "@ + dec_digits(n as nat)
            + (if last {
            " findings</li>"@
        } else {
            " findings</li>\n"@
        }),
{
    push_str(s, "<li><strong>");
    push_str(s, label);
    push_str(s, ":</strong> ");
    push_u128(s, n as u128);
    if last {
        push_str(s, " findings</li>");
    } else {
        push_str(s, " findings</li>\n");
    }
    assert(final(s)@ =~= old(s)@ + "<li><strong>"@ + label@ + ":</strong> "@ + dec_digits(n as nat)
        + (if last {
        " findings</li>"@
    } else {
        " findings</li>\n"@
    }));
}

/// The HTML report of an analysis of `target` on `chain` that took
/// `duration_text` seconds.
pub fn html_report(
    target: &str,
    chain: &str,
    duration_text: &str,
    total_checks: usize,
    violations: usize,
    passed: usize,
    breakdown: &SeverityBreakdown,
    items: &[Violation],
) -> (r: String)
    ensures
        r@ == html_report_text(
            target@,
            chain@,
            duration_text@,
            total_checks as nat,
            violations as nat,
            passed as nat,
            *breakdown,
            items@,
        ),
{
    let mut rows: Vec<String> = Vec::new();
    let mut i: usize = 0;
    while i < items.len()
        invariant
            i <= items.len(),
            rows@.len() == i,
            forall|j: int| 0 <= j < i ==> (#[trigger] rows@[j])@ == violation_row(items@[j]),
        decreases items.len() - i,
    {
        rows.push(row_of(&items[i]));
        i = i + 1;
    }
    let table = join_strings(rows.as_slice(), "\n");
    proof {
        assert(rows@.map_values(|s: String| s@) =~= items@.map_values(|v: Violation| violation_row(v)));
    }
    let mut list = String::new();
    push_count(&mut list, "Critical", breakdown.critical, false);
    push_count(&mut list, "High", breakdown.high, false);
    push_count(&mut list, "Medium", breakdown.medium, false);
    push_count(&mut list, "Low", breakdown.low, true);
    proof {
        reveal_strlit("Critical");
        reveal_strlit("High");
        reveal_strlit("Medium");
        reveal_strlit("Low");
        reveal_strlit("<li><strong>");
        reveal_strlit(":</strong> ");
        reveal_strlit(" findings</li>");
        reveal_strlit(" findings</li>\n");
        reveal_strlit("<li><strong>Critical:</strong> ");
        reveal_strlit("<li><strong>High:</strong> ");
        reveal_strlit("<li><strong>Medium:</strong> ");
        reveal_strlit("<li><strong>Low:</strong> ");
        assert(list@ =~= severity_list(*breakdown));
    }
    let mut found = String::new();
    if items.len() == 0 {
        push_str(&mut found, HTML_NONE_FOUND);
    } else {
        push_str(&mut found, "<p style=\"color: #d73a49;\">⚠️ ");
        push_u128(&mut found, items.len() as u128);
        push_str(&mut found, " security violations detected</p>");
    }
    assert(found@ =~= findings_line(items@.len()));
    let mut out = String::new();
    push_str(&mut out, HTML_HEAD);
    push_str(&mut out, target);
    push_str(&mut out, HTML_CHAIN);
    push_str(&mut out, chain);
    push_str(&mut out, HTML_DURATION);
    push_str(&mut out, duration_text);
    push_str(&mut out, HTML_CHECKS);
    push_u128(&mut out, total_checks as u128);
    push_str(&mut out, HTML_FOUND);
    push_u128(&mut out, violations as u128);
    push_str(&mut out, HTML_PASSED);
    push_u128(&mut out, passed as u128);
    push_str(&mut out, HTML_SEVERITIES);
    push_str(&mut out, list.as_str());
    push_str(&mut out, HTML_FINDINGS);
    push_str(&mut out, found.as_str());
    push_str(&mut out, HTML_TABLE);
    push_str(&mut out, table.as_str());
    push_str(&mut out, HTML_FOOT);
    push_str(&mut out, VERSION);
    push_str(&mut out, HTML_END);
    assert(out@ =~= html_report_text(
        target@,
        chain@,
        duration_text@,
        total_checks as nat,
        violations as nat,
        passed as nat,
        *breakdown,
        items@,
    ));
    out
}

} // verus!
