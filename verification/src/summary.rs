//! The summary dashboard of an analysis run: a bordered panel with the
//! target, chain, checks and duration, bars for each severity, and the
//! overall status, which fails only on violations reproduced by execution.
use vstd::prelude::*;
use crate::text::{dec_digits, push_str, push_u128, string_from};
use crate::ui::{
    bar_fill, color_border, color_critical, color_dim, color_failure, color_high, color_label,
    color_low, color_medium, color_success, color_value, divider, divider_text, painted, run_status,
    RunStatus, SeverityBreakdown, ICON_ARROW, ICON_CRITICAL, ICON_PASS,
};

verus! {

/// The counts an analysis run produced; its duration is given as text.
#[derive(Debug, Clone)]
pub struct AnalysisSummary {
    /// The target file or path analyzed.
    pub target: String,
    /// The blockchain analyzed.
    pub chain: String,
    /// Total number of checks performed.
    pub total_checks: usize,
    /// Number of violations found.
    pub violations: usize,
    /// Number of checks that passed.
    pub passed: usize,
    /// Number of suppressed violations.
    pub suppressed: usize,
    /// Violations by severity.
    pub severity_breakdown: SeverityBreakdown,
    /// Results demonstrated by execution.
    pub proven: usize,
    /// Pattern matches never executed.
    pub leads: usize,
}

/// The visible characters of `s` from here on, where `esc` says whether an
/// escape sequence (from `\x1B` up to its `m`) is open.
pub open spec fn visible_from(s: Seq<char>, esc: bool) -> nat
    decreases s.len(),
{
    if s.len() == 0 {
        0
    } else if esc {
        visible_from(s.skip(1), s[0] != 'm')
    } else if s[0] == '\x1B' {
        visible_from(s.skip(1), true)
    } else {
        1 + visible_from(s.skip(1), false)
    }
}

/// How many characters of `s` show on a terminal: all but escape sequences.
pub open spec fn visible_len(s: Seq<char>) -> nat {
    visible_from(s, false)
}

/// `n` spaces.
pub open spec fn spaces(n: nat) -> Seq<char>
    decreases n,
{
    if n == 0 {
        Seq::empty()
    } else {
        spaces((n - 1) as nat) + " "@
    }
}

/// `n` copies of `t`.
pub open spec fn repeated(t: Seq<char>, n: nat) -> Seq<char>
    decreases n,
{
    if n == 0 {
        Seq::empty()
    } else {
        repeated(t, (n - 1) as nat) + t
    }
}

/// `a - b`, or 0 where `b` is larger.
pub open spec fn minus(a: int, b: int) -> nat {
    if a >= b {
        (a - b) as nat
    } else {
        0
    }
}

/// `line` is `content` inside the panel's side borders, padded with spaces
/// to `width` visible characters.
#[verifier::opaque]
pub open spec fn box_line_is(line: Seq<char>, content: Seq<char>, width: nat) -> bool {
    exists|l: Seq<char>, r: Seq<char>|
        #![trigger painted(l, "│"@, "2;37"@), painted(r, "│"@, "2;37"@)]
        painted(l, "│"@, "2;37"@) && painted(r, "│"@, "2;37"@) && line == l + " "@ + content + spaces(
            minus(width as int, (4 + visible_len(content)) as int),
        ) + " "@ + r
}

/// `line` is a rule from corner `a` to corner `b`, `n` characters between,
/// followed by `tail`.
#[verifier::opaque]
pub open spec fn rule_is(line: Seq<char>, a: Seq<char>, b: Seq<char>, n: nat, tail: Seq<char>) -> bool {
    exists|x: Seq<char>, y: Seq<char>|
        #![trigger painted(x, a, "2;37"@), painted(y, b, "2;37"@)]
        painted(x, a, "2;37"@) && painted(y, b, "2;37"@) && line == x + divider_text(n) + y + tail
}

/// `c` is a bold label, two spaces, and a plain value.
#[verifier::opaque]
pub open spec fn labelled(c: Seq<char>, label: Seq<char>, value: Seq<char>) -> bool {
    exists|x: Seq<char>, y: Seq<char>|
        #![trigger painted(x, label, "1;37"@), painted(y, value, "37"@)]
        painted(x, label, "1;37"@) && painted(y, value, "37"@) && c == x + "  "@ + y
}

/// `c` is the line of checks: total, proven, leads and suppressed.
#[verifier::opaque]
pub open spec fn checks_line(c: Seq<char>, s: AnalysisSummary) -> bool {
    exists|l: Seq<char>, t: Seq<char>, d: Seq<char>, p: Seq<char>, q: Seq<char>, u: Seq<char>|
        #![trigger painted(l, "Checks"@, "1;37"@), painted(t, dec_digits(s.total_checks as nat), "37"@), painted(d, "·"@, "2"@), painted(p, dec_digits(s.proven as nat), "37"@), painted(q, dec_digits(s.leads as nat), "37"@), painted(u, dec_digits(s.suppressed as nat), "37"@)]
        painted(l, "Checks"@, "1;37"@) && painted(t, dec_digits(s.total_checks as nat), "37"@)
            && painted(d, "·"@, "2"@) && painted(p, dec_digits(s.proven as nat), "37"@) && painted(
            q,
            dec_digits(s.leads as nat),
            "37"@,
        ) && painted(u, dec_digits(s.suppressed as nat), "37"@) && c == l + "  "@ + t
            + " total  "@ + d + "  "@ + p + " proven  "@ + d + "  "@ + q + " leads  "@ + d + "  "@
            + u + " suppressed"@
}

/// The bar of `count` out of `max`: filled slots, then empty ones, ten in all.
pub open spec fn bar_text(count: usize, max: usize) -> Seq<char> {
    let filled = if max == 0 {
        0
    } else {
        (count * 10 + max - 1) / (max as int)
    };
    let f = if filled <= 10 {
        filled as nat
    } else {
        10
    };
    repeated("█"@, filled as nat) + repeated("░"@, (10 - f) as nat)
}

/// `c` is a row of two severities: each name painted, its bar and count.
#[verifier::opaque]
pub open spec fn bars_line(
    c: Seq<char>,
    n1: Seq<char>,
    k1: Seq<char>,
    c1: usize,
    n2: Seq<char>,
    k2: Seq<char>,
    c2: usize,
    max: usize,
) -> bool {
    exists|a: Seq<char>, x: Seq<char>, b: Seq<char>, y: Seq<char>|
        #![trigger painted(a, n1, k1), painted(x, dec_digits(c1 as nat), "37"@), painted(b, n2, k2), painted(y, dec_digits(c2 as nat), "37"@)]
        painted(a, n1, k1) && painted(x, dec_digits(c1 as nat), "37"@) && painted(b, n2, k2)
            && painted(y, dec_digits(c2 as nat), "37"@) && c == a + "  "@ + bar_text(c1, max) + "  "@
            + x + "    "@ + b + "  "@ + bar_text(c2, max) + "  "@ + y
}

/// The status text and its style for a run.
pub open spec fn status_parts(s: AnalysisSummary) -> (Seq<char>, Seq<char>, Seq<char>) {
    if s.proven > 0 {
        (ICON_CRITICAL@, "FAIL — violations reproduced by execution"@, "1;91"@)
    } else if s.leads > 0 {
        (ICON_ARROW@, "REVIEW — "@ + dec_digits(s.leads as nat) + " unproven lead(s), 0 reproduced"@, "1;33"@)
    } else {
        (ICON_PASS@, "PASS — nothing found"@, "1;92"@)
    }
}

/// `c` is the status line.
#[verifier::opaque]
pub open spec fn status_line(c: Seq<char>, s: AnalysisSummary) -> bool {
    let (icon, text, code) = status_parts(s);
    exists|l: Seq<char>, t: Seq<char>|
        #![trigger painted(l, "Status"@, "1;37"@), painted(t, text, code)]
        painted(l, "Status"@, "1;37"@) && painted(t, text, code) && c == l + "  "@ + icon + " "@ + t
}

/// The largest of the four counts.
pub open spec fn max_count(b: SeverityBreakdown) -> usize {
    let m1 = if b.critical >= b.high {
        b.critical
    } else {
        b.high
    };
    let m2 = if m1 >= b.medium {
        m1
    } else {
        b.medium
    };
    if m2 >= b.low {
        m2
    } else {
        b.low
    }
}

/// The lines, each followed by a newline.
pub open spec fn each_line(lines: Seq<Seq<char>>) -> Seq<char>
    decreases lines.len(),
{
    if lines.len() == 0 {
        Seq::empty()
    } else {
        each_line(lines.drop_last()) + lines.last() + "\n"@
    }
}

/// `ls` are the lines of the dashboard of `s` at `width` columns, the
/// duration shown as `duration` seconds.
#[verifier::opaque]
pub open spec fn dashboard_lines(ls: Seq<Seq<char>>, s: AnalysisSummary, duration: Seq<char>, width: nat) -> bool {
    let b = s.severity_breakdown;
    let m = max_count(b);
    &&& ls.len() == 20
    &&& rule_is(ls[0], "╭"@, "╮"@, minus(width as int, 2), Seq::empty())
    &&& box_line_is(ls[1], "─ Analysis Summary ─"@, width)
    &&& box_line_is(ls[2], Seq::empty(), width)
    &&& (exists|c: Seq<char>| #[trigger] labelled(c, "Target"@, s.target@) && box_line_is(ls[3], c, width))
    &&& (exists|c: Seq<char>| #[trigger] labelled(c, "Chain"@, s.chain@) && box_line_is(ls[4], c, width))
    &&& (exists|c: Seq<char>| #[trigger] checks_line(c, s) && box_line_is(ls[5], c, width))
    &&& (exists|l: Seq<char>|
        #![trigger painted(l, "Duration"@, "1;37"@)]
        painted(l, "Duration"@, "1;37"@) && box_line_is(ls[6], l + "  "@ + duration + "s"@, width))
    &&& box_line_is(ls[7], Seq::empty(), width)
    &&& rule_is(ls[8], "├"@, "┤"@, minus(width as int, 4), "     "@)
    &&& box_line_is(ls[9], Seq::empty(), width)
    &&& box_line_is(ls[10], "Severity Breakdown"@, width)
    &&& box_line_is(ls[11], Seq::empty(), width)
    &&& (exists|c: Seq<char>|
        #[trigger] bars_line(c, "CRITICAL"@, "1;91"@, b.critical, "HIGH"@, "1;31"@, b.high, m)
            && box_line_is(ls[12], c, width))
    &&& (exists|c: Seq<char>|
        #[trigger] bars_line(c, "MEDIUM"@, "1;33"@, b.medium, "LOW"@, "1;36"@, b.low, m)
            && box_line_is(ls[13], c, width))
    &&& box_line_is(ls[14], Seq::empty(), width)
    &&& rule_is(ls[15], "├"@, "┤"@, minus(width as int, 4), "    "@)
    &&& box_line_is(ls[16], Seq::empty(), width)
    &&& (exists|c: Seq<char>| #[trigger] status_line(c, s) && box_line_is(ls[17], c, width))
    &&& box_line_is(ls[18], Seq::empty(), width)
    &&& rule_is(ls[19], "╰"@, "╯"@, minus(width as int, 2), Seq::empty())
}

/// `r` is the dashboard of `s` at `width` columns.
pub open spec fn dashboard_is(r: Seq<char>, s: AnalysisSummary, duration: Seq<char>, width: nat) -> bool {
    exists|ls: Seq<Seq<char>>|
        #![trigger dashboard_lines(ls, s, duration, width)]
        dashboard_lines(ls, s, duration, width) && r == "\n"@ + each_line(ls)
}

/// How many characters of `s` show on a terminal.
pub fn visible_length(s: &str) -> (r: usize)
    ensures
        r == visible_len(s@),
{
    let cs = crate::text::chars_of(s);
    let mut n: usize = 0;
    let mut esc = false;
    let mut k: usize = 0;
    assert(cs@.skip(0) =~= cs@);
    while k < cs.len()
        invariant
            k <= cs@.len(),
            cs@ == s@,
            n <= k,
            n + visible_from(cs@.skip(k as int), esc) == visible_len(s@),
        decreases cs.len() - k,
    {
        let c = cs[k];
        let ghost rest = cs@.skip(k as int);
        assert(rest[0] == c);
        assert(rest.skip(1) =~= cs@.skip(k + 1));
        if esc {
            if c == 'm' {
                esc = false;
            }
        } else if c == '\x1B' {
            esc = true;
        } else {
            n = n + 1;
        }
        k = k + 1;
    }
    assert(cs@.skip(k as int) =~= Seq::<char>::empty());
    n
}

fn push_spaces(s: &mut String, n: usize)
    ensures
        final(s)@ == old(s)@ + spaces(n as nat),
{
    let mut i: usize = 0;
    while i < n
        invariant
            i <= n,
            s@ == old(s)@ + spaces(i as nat),
        decreases n - i,
    {
        push_str(s, " ");
        i = i + 1;
        assert(s@ =~= old(s)@ + spaces(i as nat));
    }
}

fn push_repeated(s: &mut String, t: &str, n: usize)
    ensures
        final(s)@ == old(s)@ + repeated(t@, n as nat),
{
    let mut i: usize = 0;
    while i < n
        invariant
            i <= n,
            s@ == old(s)@ + repeated(t@, i as nat),
        decreases n - i,
    {
        push_str(s, t);
        i = i + 1;
        assert(s@ =~= old(s)@ + repeated(t@, i as nat));
    }
}

/// `content` inside the side borders, padded to `width` visible characters.
pub fn box_line(content: &str, width: usize) -> (r: String)
    ensures
        box_line_is(r@, content@, width as nat),
{
    proof {
        reveal(box_line_is);
    }
    let l = color_border("│");
    let r = color_border("│");
    let vis = visible_length(content);
    let pad = if vis <= usize::MAX - 4 && width >= 4 + vis {
        width - 4 - vis
    } else {
        0
    };
    let mut out = string_from(l.as_str());
    push_str(&mut out, " ");
    push_str(&mut out, content);
    push_spaces(&mut out, pad);
    push_str(&mut out, " ");
    push_str(&mut out, r.as_str());
    proof {
        assert(pad == minus(width as int, (4 + visible_len(content@)) as int));
        assert(out@ == l@ + " "@ + content@ + spaces(pad as nat) + " "@ + r@);
    }
    out
}

/// The bar of `count` out of `max`, ten slots, filled in proportion.
pub fn severity_bar(count: usize, max: usize) -> (r: String)
    requires
        count * 10 + max <= usize::MAX,
    ensures
        r@ == bar_text(count, max),
{
    let filled = bar_fill(count, max);
    let f = if filled <= 10 {
        filled
    } else {
        10
    };
    let mut s = String::new();
    push_repeated(&mut s, "█", filled);
    push_repeated(&mut s, "░", 10 - f);
    assert(s@ =~= bar_text(count, max));
    s
}

fn rule(a: &str, b: &str, n: usize, tail: &str) -> (r: String)
    ensures
        rule_is(r@, a@, b@, n as nat, tail@),
{
    proof {
        reveal(rule_is);
    }
    let x = color_border(a);
    let y = color_border(b);
    let d = divider(n);
    let mut out = string_from(x.as_str());
    push_str(&mut out, d.as_str());
    push_str(&mut out, y.as_str());
    push_str(&mut out, tail);
    proof {
        assert(out@ == x@ + divider_text(n as nat) + y@ + tail@);
    }
    out
}

fn labelled_text(label: &str, value: &str) -> (r: String)
    ensures
        labelled(r@, label@, value@),
{
    proof {
        reveal(labelled);
    }
    let x = color_label(label);
    let y = color_value(value);
    let mut out = string_from(x.as_str());
    push_str(&mut out, "  ");
    push_str(&mut out, y.as_str());
    assert(out@ == x@ + "  "@ + y@);
    out
}

fn number_text(n: usize) -> (r: String)
    ensures
        r@ == dec_digits(n as nat),
{
    let mut s = String::new();
    push_u128(&mut s, n as u128);
    assert(s@ =~= dec_digits(n as nat));
    s
}

fn checks_text(s: &AnalysisSummary) -> (r: String)
    ensures
        checks_line(r@, *s),
{
    proof {
        reveal(checks_line);
    }
    let l = color_label("Checks");
    let t = color_value(number_text(s.total_checks).as_str());
    let d = color_dim("·");
    let p = color_value(number_text(s.proven).as_str());
    let q = color_value(number_text(s.leads).as_str());
    let u = color_value(number_text(s.suppressed).as_str());
    let mut out = string_from(l.as_str());
    push_str(&mut out, "  ");
    push_str(&mut out, t.as_str());
    push_str(&mut out, " total  ");
    push_str(&mut out, d.as_str());
    push_str(&mut out, "  ");
    push_str(&mut out, p.as_str());
    push_str(&mut out, " proven  ");
    push_str(&mut out, d.as_str());
    push_str(&mut out, "  ");
    push_str(&mut out, q.as_str());
    push_str(&mut out, " leads  ");
    push_str(&mut out, d.as_str());
    push_str(&mut out, "  ");
    push_str(&mut out, u.as_str());
    push_str(&mut out, " suppressed");
    assert(out@ == l@ + "  "@ + t@ + " total  "@ + d@ + "  "@ + p@ + " proven  "@ + d@ + "  "@ + q@
        + " leads  "@ + d@ + "  "@ + u@ + " suppressed"@);
    out
}

fn bars_text(
    n1: &str,
    first: bool,
    c1: usize,
    n2: &str,
    c2: usize,
    max: usize,
) -> (r: String)
    requires
        c1 * 10 + max <= usize::MAX,
        c2 * 10 + max <= usize::MAX,
    ensures
        first ==> bars_line(r@, n1@, "1;91"@, c1, n2@, "1;31"@, c2, max),
        !first ==> bars_line(r@, n1@, "1;33"@, c1, n2@, "1;36"@, c2, max),
{
    proof {
        reveal(bars_line);
    }
    let a = if first {
        color_critical(n1)
    } else {
        color_medium(n1)
    };
    let b = if first {
        color_high(n2)
    } else {
        color_low(n2)
    };
    let x = color_value(number_text(c1).as_str());
    let y = color_value(number_text(c2).as_str());
    let bar1 = severity_bar(c1, max);
    let bar2 = severity_bar(c2, max);
    let mut out = string_from(a.as_str());
    push_str(&mut out, "  ");
    push_str(&mut out, bar1.as_str());
    push_str(&mut out, "  ");
    push_str(&mut out, x.as_str());
    push_str(&mut out, "    ");
    push_str(&mut out, b.as_str());
    push_str(&mut out, "  ");
    push_str(&mut out, bar2.as_str());
    push_str(&mut out, "  ");
    push_str(&mut out, y.as_str());
    assert(out@ == a@ + "  "@ + bar_text(c1, max) + "  "@ + x@ + "    "@ + b@ + "  "@ + bar_text(
        c2,
        max,
    ) + "  "@ + y@);
    out
}

fn status_text(s: &AnalysisSummary) -> (r: String)
    ensures
        status_line(r@, *s),
{
    proof {
        reveal(status_line);
    }
    let l = color_label("Status");
    let (icon, t) = match run_status(s.proven, s.leads) {
        RunStatus::Fail => (ICON_CRITICAL, color_failure("FAIL — violations reproduced by execution")),
        RunStatus::Review => {
            let mut m = string_from("REVIEW — ");
            push_u128(&mut m, s.leads as u128);
            push_str(&mut m, " unproven lead(s), 0 reproduced");
            (ICON_ARROW, color_medium(m.as_str()))
        },
        RunStatus::Pass => (ICON_PASS, color_success("PASS — nothing found")),
    };
    let mut out = string_from(l.as_str());
    push_str(&mut out, "  ");
    push_str(&mut out, icon);
    push_str(&mut out, " ");
    push_str(&mut out, t.as_str());
    proof {
        let (i2, t2, k2) = status_parts(*s);
        assert(icon@ == i2);
        assert(painted(t@, t2, k2));
        assert(out@ == l@ + "  "@ + i2 + " "@ + t@);
    }
    out
}

fn max4(b: &SeverityBreakdown) -> (r: usize)
    ensures
        r == max_count(*b),
{
    let m1 = if b.critical >= b.high {
        b.critical
    } else {
        b.high
    };
    let m2 = if m1 >= b.medium {
        m1
    } else {
        b.medium
    };
    if m2 >= b.low {
        m2
    } else {
        b.low
    }
}

proof fn lemma_dashboard(
    ls: Seq<Seq<char>>,
    s: AnalysisSummary,
    duration: Seq<char>,
    width: nat,
    target: Seq<char>,
    chain: Seq<char>,
    checks: Seq<char>,
    dl: Seq<char>,
    top: Seq<char>,
    bottom: Seq<char>,
    status: Seq<char>,
)
    requires
        ls.len() == 20,
        rule_is(ls[0], "╭"@, "╮"@, minus(width as int, 2), Seq::empty()),
        box_line_is(ls[1], "─ Analysis Summary ─"@, width),
        box_line_is(ls[2], Seq::empty(), width),
        labelled(target, "Target"@, s.target@),
        box_line_is(ls[3], target, width),
        labelled(chain, "Chain"@, s.chain@),
        box_line_is(ls[4], chain, width),
        checks_line(checks, s),
        box_line_is(ls[5], checks, width),
        painted(dl, "Duration"@, "1;37"@),
        box_line_is(ls[6], dl + "  "@ + duration + "s"@, width),
        box_line_is(ls[7], Seq::empty(), width),
        rule_is(ls[8], "├"@, "┤"@, minus(width as int, 4), "     "@),
        box_line_is(ls[9], Seq::empty(), width),
        box_line_is(ls[10], "Severity Breakdown"@, width),
        box_line_is(ls[11], Seq::empty(), width),
        bars_line(top, "CRITICAL"@, "1;91"@, s.severity_breakdown.critical, "HIGH"@, "1;31"@,
            s.severity_breakdown.high, max_count(s.severity_breakdown)),
        box_line_is(ls[12], top, width),
        bars_line(bottom, "MEDIUM"@, "1;33"@, s.severity_breakdown.medium, "LOW"@, "1;36"@,
            s.severity_breakdown.low, max_count(s.severity_breakdown)),
        box_line_is(ls[13], bottom, width),
        box_line_is(ls[14], Seq::empty(), width),
        rule_is(ls[15], "├"@, "┤"@, minus(width as int, 4), "    "@),
        box_line_is(ls[16], Seq::empty(), width),
        status_line(status, s),
        box_line_is(ls[17], status, width),
        box_line_is(ls[18], Seq::empty(), width),
        rule_is(ls[19], "╰"@, "╯"@, minus(width as int, 2), Seq::empty()),
    ensures
        dashboard_lines(ls, s, duration, width),
{
    reveal(dashboard_lines);
}

/// The summary dashboard of a run at `width` columns, its duration shown as
/// `duration_text` seconds.
pub fn render_summary(summary: &AnalysisSummary, duration_text: &str, width: usize) -> (r: String)
    requires
        max_count(summary.severity_breakdown) * 11 <= usize::MAX,
    ensures
        dashboard_is(r@, *summary, duration_text@, width as nat),
{
    let b = &summary.severity_breakdown;
    let m = max4(b);
    let w2 = if width >= 2 {
        width - 2
    } else {
        0
    };
    let w4 = if width >= 4 {
        width - 4
    } else {
        0
    };
    let l0 = rule("╭", "╮", w2, "");
    let l1 = box_line("─ Analysis Summary ─", width);
    let l2 = box_line("", width);
    let target = labelled_text("Target", summary.target.as_str());
    let l3 = box_line(target.as_str(), width);
    let chain = labelled_text("Chain", summary.chain.as_str());
    let l4 = box_line(chain.as_str(), width);
    let checks = checks_text(summary);
    let l5 = box_line(checks.as_str(), width);
    let dl = color_label("Duration");
    let mut duration = string_from(dl.as_str());
    push_str(&mut duration, "  ");
    push_str(&mut duration, duration_text);
    push_str(&mut duration, "s");
    let l6 = box_line(duration.as_str(), width);
    let l7 = box_line("", width);
    let l8 = rule("├", "┤", w4, "     ");
    let l9 = box_line("", width);
    let l10 = box_line("Severity Breakdown", width);
    let l11 = box_line("", width);
    let top = bars_text("CRITICAL", true, b.critical, "HIGH", b.high, m);
    let l12 = box_line(top.as_str(), width);
    let bottom = bars_text("MEDIUM", false, b.medium, "LOW", b.low, m);
    let l13 = box_line(bottom.as_str(), width);
    let l14 = box_line("", width);
    let l15 = rule("├", "┤", w4, "    ");
    let l16 = box_line("", width);
    let status = status_text(summary);
    let l17 = box_line(status.as_str(), width);
    let l18 = box_line("", width);
    let l19 = rule("╰", "╯", w2, "");
    proof {
        reveal_strlit("");
        assert(""@ =~= Seq::<char>::empty());
        assert(duration@ == dl@ + "  "@ + duration_text@ + "s"@);
        assert(w2 == minus(width as int, 2));
        assert(w4 == minus(width as int, 4));
    }
    let ghost ls = seq![
        l0@, l1@, l2@, l3@, l4@, l5@, l6@, l7@, l8@, l9@, l10@, l11@, l12@, l13@, l14@, l15@,
        l16@, l17@, l18@, l19@,
    ];
    proof {
        lemma_dashboard(ls, *summary, duration_text@, width as nat, target@, chain@, checks@, dl@,
            top@, bottom@, status@);
    }
    let lines: Vec<String> = vec![
        l0, l1, l2, l3, l4, l5, l6, l7, l8, l9, l10, l11, l12, l13, l14, l15, l16, l17, l18, l19,
    ];
    assert(lines@.map_values(|x: String| x@) =~= ls);
    let mut out = string_from("\n");
    let mut i: usize = 0;
    while i < lines.len()
        invariant
            i <= lines@.len(),
            ls == lines@.map_values(|x: String| x@),
            dashboard_lines(ls, *summary, duration_text@, width as nat),
            out@ == "\n"@ + each_line(ls.subrange(0, i as int)),
        decreases lines.len() - i,
    {
        push_str(&mut out, lines[i].as_str());
        push_str(&mut out, "\n");
        proof {
            let sub = ls.subrange(0, i as int + 1);
            assert(sub.drop_last() =~= ls.subrange(0, i as int));
            assert(sub.last() == lines@[i as int]@);
        }
        i = i + 1;
        assert(out@ =~= "\n"@ + each_line(ls.subrange(0, i as int)));
    }
    proof {
        assert(ls.subrange(0, 20) =~= ls);
    }
    out
}

} // verus!
