//! Terminal output of the command line tool: the color palette, icons, and
//! the banner, header, doctor, error and success renderings.
//!
//! Colors come from the `colored` crate, which paints a string only when the
//! process is allowed to use colors; every rendering here therefore states
//! what holds whether or not a painted part came out painted.
use vstd::prelude::*;
use colored::Colorize;
use crate::text::{dec_digits, joined, push_str, push_u128, replaced, string_from};

verus! {

/// The version shown in banners and headers.
pub const VERSION: &'static str = "0.4.1";

/// Critical severity icon.
pub const ICON_CRITICAL: &'static str = "✗";
/// High severity icon.
pub const ICON_HIGH: &'static str = "✗";
/// Medium severity icon.
pub const ICON_MEDIUM: &'static str = "⚠";
/// Low severity icon.
pub const ICON_LOW: &'static str = "ℹ";
/// Pass/success icon.
pub const ICON_PASS: &'static str = "✓";
/// Suppressed check icon.
pub const ICON_SUPPRESS: &'static str = "○";
/// Arrow for recommendations.
pub const ICON_ARROW: &'static str = "→";
/// Bullet for list items.
pub const ICON_BULLET: &'static str = "·";
/// Horizontal box drawing character.
pub const ICON_BOX_H: &'static str = "─";
/// Vertical box drawing character.
pub const ICON_BOX_V: &'static str = "│";
/// Top-left box corner.
pub const ICON_BOX_TL: &'static str = "╭";
/// Top-right box corner.
pub const ICON_BOX_TR: &'static str = "╮";
/// Bottom-left box corner.
pub const ICON_BOX_BL: &'static str = "╰";
/// Bottom-right box corner.
pub const ICON_BOX_BR: &'static str = "╯";
/// Left tee of a box.
pub const ICON_BOX_ML: &'static str = "├";
/// Right tee of a box.
pub const ICON_BOX_MR: &'static str = "┤";

/// The sequence that ends styled text.
pub open spec fn reset_code() -> Seq<char> {
    "\x1B[0m"@
}

/// The sequence that starts text styled with the SGR parameters `code`.
pub open spec fn style_start(code: Seq<char>) -> Seq<char> {
    "\x1B["@ + code + "m"@
}

/// `r` is `s` as `colored` shows it with the SGR parameters `code`: plain
/// when colors are off; otherwise styled, with the style restarted after
/// every reset inside `s`.
pub open spec fn painted(r: Seq<char>, s: Seq<char>, code: Seq<char>) -> bool {
    r == s || r == style_start(code) + replaced(s, reset_code(), reset_code() + style_start(code))
        + reset_code()
}

/// `colored`: `s.bright_red().bold()`, displayed.
#[verifier::external_body]
fn paint_bright_red_bold(s: &str) -> (r: String)
    ensures
        painted(r@, s@, "1;91"@),
{
    s.bright_red().bold().to_string()
}

/// `colored`: `s.red().bold()`, displayed.
#[verifier::external_body]
fn paint_red_bold(s: &str) -> (r: String)
    ensures
        painted(r@, s@, "1;31"@),
{
    s.red().bold().to_string()
}

/// `colored`: `s.yellow().bold()`, displayed.
#[verifier::external_body]
fn paint_yellow_bold(s: &str) -> (r: String)
    ensures
        painted(r@, s@, "1;33"@),
{
    s.yellow().bold().to_string()
}

/// `colored`: `s.cyan().bold()`, displayed.
#[verifier::external_body]
fn paint_cyan_bold(s: &str) -> (r: String)
    ensures
        painted(r@, s@, "1;36"@),
{
    s.cyan().bold().to_string()
}

/// `colored`: `s.bright_green().bold()`, displayed.
#[verifier::external_body]
fn paint_bright_green_bold(s: &str) -> (r: String)
    ensures
        painted(r@, s@, "1;92"@),
{
    s.bright_green().bold().to_string()
}

/// `colored`: `s.yellow()`, displayed.
#[verifier::external_body]
fn paint_yellow(s: &str) -> (r: String)
    ensures
        painted(r@, s@, "33"@),
{
    s.yellow().to_string()
}

/// `colored`: `s.white().dimmed()`, displayed.
#[verifier::external_body]
fn paint_white_dimmed(s: &str) -> (r: String)
    ensures
        painted(r@, s@, "2;37"@),
{
    s.white().dimmed().to_string()
}

/// `colored`: `s.white().bold()`, displayed.
#[verifier::external_body]
fn paint_white_bold(s: &str) -> (r: String)
    ensures
        painted(r@, s@, "1;37"@),
{
    s.white().bold().to_string()
}

/// `colored`: `s.white()`, displayed.
#[verifier::external_body]
fn paint_white(s: &str) -> (r: String)
    ensures
        painted(r@, s@, "37"@),
{
    s.white().to_string()
}

/// `colored`: `s.dimmed()`, displayed.
#[verifier::external_body]
fn paint_dimmed(s: &str) -> (r: String)
    ensures
        painted(r@, s@, "2"@),
{
    s.dimmed().to_string()
}

/// `colored`: `s.bright_blue()`, displayed.
#[verifier::external_body]
fn paint_bright_blue(s: &str) -> (r: String)
    ensures
        painted(r@, s@, "94"@),
{
    s.bright_blue().to_string()
}

/// `colored`: `s.italic().cyan()`, displayed.
#[verifier::external_body]
fn paint_italic_cyan(s: &str) -> (r: String)
    ensures
        painted(r@, s@, "3;36"@),
{
    s.italic().cyan().to_string()
}

/// `colored`: `s.bright_blue().bold()`, displayed.
#[verifier::external_body]
fn paint_bright_blue_bold(s: &str) -> (r: String)
    ensures
        painted(r@, s@, "1;94"@),
{
    s.bright_blue().bold().to_string()
}

/// Critical severity styling: bright red, bold.
pub fn color_critical(s: &str) -> (r: String)
    ensures
        painted(r@, s@, "1;91"@),
{
    paint_bright_red_bold(s)
}

/// High severity styling: red, bold.
pub fn color_high(s: &str) -> (r: String)
    ensures
        painted(r@, s@, "1;31"@),
{
    paint_red_bold(s)
}

/// Medium severity styling: yellow, bold.
pub fn color_medium(s: &str) -> (r: String)
    ensures
        painted(r@, s@, "1;33"@),
{
    paint_yellow_bold(s)
}

/// Low severity styling: cyan, bold.
pub fn color_low(s: &str) -> (r: String)
    ensures
        painted(r@, s@, "1;36"@),
{
    paint_cyan_bold(s)
}

/// Success styling: bright green, bold.
pub fn color_success(s: &str) -> (r: String)
    ensures
        painted(r@, s@, "1;92"@),
{
    paint_bright_green_bold(s)
}

/// Failure styling: bright red, bold.
pub fn color_failure(s: &str) -> (r: String)
    ensures
        painted(r@, s@, "1;91"@),
{
    paint_bright_red_bold(s)
}

/// Warning styling: yellow.
pub fn color_warning(s: &str) -> (r: String)
    ensures
        painted(r@, s@, "33"@),
{
    paint_yellow(s)
}

/// Skipped styling: dim white.
pub fn color_skipped(s: &str) -> (r: String)
    ensures
        painted(r@, s@, "2;37"@),
{
    paint_white_dimmed(s)
}

/// Border styling: dim white.
pub fn color_border(s: &str) -> (r: String)
    ensures
        painted(r@, s@, "2;37"@),
{
    paint_white_dimmed(s)
}

/// Label styling: white, bold.
pub fn color_label(s: &str) -> (r: String)
    ensures
        painted(r@, s@, "1;37"@),
{
    paint_white_bold(s)
}

/// Value styling: white.
pub fn color_value(s: &str) -> (r: String)
    ensures
        painted(r@, s@, "37"@),
{
    paint_white(s)
}

/// Secondary information styling: dim.
pub fn color_dim(s: &str) -> (r: String)
    ensures
        painted(r@, s@, "2"@),
{
    paint_dimmed(s)
}

/// Accent styling: bright blue.
pub fn color_accent(s: &str) -> (r: String)
    ensures
        painted(r@, s@, "94"@),
{
    paint_bright_blue(s)
}

/// Recommendation styling: italic cyan.
pub fn color_recommendation(s: &str) -> (r: String)
    ensures
        painted(r@, s@, "3;36"@),
{
    paint_italic_cyan(s)
}

/// Header styling: bright blue, bold.
pub fn color_header(s: &str) -> (r: String)
    ensures
        painted(r@, s@, "1;94"@),
{
    paint_bright_blue_bold(s)
}

/// A horizontal rule `width` characters long.
pub open spec fn divider_text(width: nat) -> Seq<char>
    decreases width,
{
    if width == 0 {
        Seq::empty()
    } else {
        divider_text((width - 1) as nat) + "─"@
    }
}

/// A horizontal rule `width` characters long.
pub fn divider(width: usize) -> (r: String)
    ensures
        r@ == divider_text(width as nat),
{
    let mut s = String::new();
    let mut i: usize = 0;
    while i < width
        invariant
            i <= width,
            s@ == divider_text(i as nat),
        decreases width - i,
    {
        push_str(&mut s, "─");
        i = i + 1;
    }
    s
}

/// The rendering of an error: `painted("error:") title`, then the detail
/// indented when there is one, then a blank line and the hint when there is
/// one.
pub open spec fn error_text(
    head: Seq<char>,
    title: Seq<char>,
    dim_detail: Option<Seq<char>>,
    hint: Option<(Seq<char>, Seq<char>)>,
) -> Seq<char> {
    head + " "@ + title + "\n"@ + (match dim_detail {
        Some(d) => "       "@ + d + "\n"@,
        None => Seq::empty(),
    }) + (match hint {
        Some((label, text)) => "\n"@ + label + " "@ + text + "\n"@,
        None => Seq::empty(),
    })
}

/// An error message in the style of rustc.
pub fn render_error(title: &str, detail: &str, hint: Option<&str>) -> (r: String)
    ensures
        exists|head: Seq<char>, dim_detail: Option<Seq<char>>, hint_part: Option<(Seq<char>, Seq<char>)>|
            {
                &&& painted(head, "error:"@, "1;91"@)
                &&& (detail@.len() == 0 <==> dim_detail is None)
                &&& (dim_detail matches Some(d) ==> painted(d, detail@, "2"@))
                &&& (hint is None <==> hint_part is None)
                &&& (hint_part matches Some((label, text)) ==> painted(label, "hint:"@, "94"@)
                    && text == hint->0@)
                &&& r@ == error_text(head, title@, dim_detail, hint_part)
            },
{
    let mut output = String::new();
    let head = color_failure("error:");
    push_str(&mut output, head.as_str());
    push_str(&mut output, " ");
    push_str(&mut output, title);
    push_str(&mut output, "\n");
    let ghost mut dim_detail: Option<Seq<char>> = None;
    if !detail.is_empty() {
        let d = color_dim(detail);
        push_str(&mut output, "       ");
        push_str(&mut output, d.as_str());
        push_str(&mut output, "\n");
        proof {
            dim_detail = Some(d@);
        }
    }
    let ghost mut hint_part: Option<(Seq<char>, Seq<char>)> = None;
    match hint {
        Some(hint_text) => {
            let label = color_accent("hint:");
            push_str(&mut output, "\n");
            push_str(&mut output, label.as_str());
            push_str(&mut output, " ");
            push_str(&mut output, hint_text);
            push_str(&mut output, "\n");
            proof {
                hint_part = Some((label@, hint_text@));
            }
        },
        None => {},
    }
    assert(output@ =~= error_text(head@, title@, dim_detail, hint_part));
    output
}

/// The result of checking one component.
#[derive(Debug, Clone)]
pub struct HealthCheck {
    /// Name of the component.
    pub component: String,
    /// Whether the check passed.
    pub passed: bool,
    /// Status message.
    pub message: String,
}

/// The number of checks that failed.
pub open spec fn failed_count(checks: Seq<HealthCheck>) -> nat
    decreases checks.len(),
{
    if checks.len() == 0 {
        0
    } else {
        failed_count(checks.drop_last()) + if checks.last().passed {
            0nat
        } else {
            1nat
        }
    }
}

/// One line per check, each starting with its painted icon.
pub open spec fn check_lines(checks: Seq<HealthCheck>, icons: Seq<Seq<char>>) -> Seq<char>
    decreases checks.len(),
{
    if checks.len() == 0 || icons.len() != checks.len() {
        Seq::empty()
    } else {
        check_lines(checks.drop_last(), icons.drop_last()) + icons.last() + "  "@
            + checks.last().component@ + "                     "@ + checks.last().message@ + "\n"@
    }
}

/// Each icon is the pass or fail icon of its check, painted.
pub open spec fn check_icons_ok(checks: Seq<HealthCheck>, icons: Seq<Seq<char>>) -> bool {
    icons.len() == checks.len() && forall|i: int|
        0 <= i < checks.len() ==> if checks[i].passed {
            painted(#[trigger] icons[i], "✓"@, "1;92"@)
        } else {
            painted(icons[i], "✗"@, "1;91"@)
        }
}

/// The rendering of the doctor's results.
pub open spec fn doctor_text(
    checks: Seq<HealthCheck>,
    width: nat,
    label: Seq<char>,
    icons: Seq<Seq<char>>,
    summary_icon: Seq<char>,
) -> Seq<char> {
    let d = divider_text(width);
    d + "\n"@ + label + "  "@ + "·"@ + "  Component Health Check\n"@ + d + "\n"@ + "\n"@
        + check_lines(checks, icons) + "\n"@ + d + "\n"@ + (if failed_count(checks) == 0 {
        summary_icon + " All "@ + dec_digits(checks.len()) + " components healthy. Truent is ready.\n"@
    } else {
        summary_icon + " "@ + dec_digits(failed_count(checks)) + " components have issues.\n"@
    }) + d + "\n"@
}

/// The doctor's report: each component's check, then whether all are
/// healthy or how many have issues, between rules `width` wide.
pub fn render_doctor_results(checks: &[HealthCheck], width: usize) -> (r: String)
    ensures
        exists|label: Seq<char>, icons: Seq<Seq<char>>, summary_icon: Seq<char>|
            {
                &&& painted(label, "Truent Doctor"@, "1;37"@)
                &&& check_icons_ok(checks@, icons)
                &&& (if failed_count(checks@) == 0 {
                    painted(summary_icon, "✓"@, "1;92"@)
                } else {
                    painted(summary_icon, "✗"@, "1;91"@)
                })
                &&& r@ == doctor_text(checks@, width as nat, label, icons, summary_icon)
            },
{
    let d = divider(width);
    let mut output = String::new();
    push_str(&mut output, d.as_str());
    push_str(&mut output, "\n");
    let label = color_label("Truent Doctor");
    push_str(&mut output, label.as_str());
    push_str(&mut output, "  ");
    push_str(&mut output, "·");
    push_str(&mut output, "  Component Health Check\n");
    push_str(&mut output, d.as_str());
    push_str(&mut output, "\n");
    push_str(&mut output, "\n");
    let ghost head = output@;
    let ghost mut icons: Seq<Seq<char>> = Seq::empty();
    let mut failed: usize = 0;
    let mut i: usize = 0;
    assert(checks@.subrange(0, 0) =~= Seq::<HealthCheck>::empty());
    while i < checks.len()
        invariant
            i <= checks.len(),
            icons.len() == i,
            check_icons_ok(checks@.subrange(0, i as int), icons),
            output@ == head + check_lines(checks@.subrange(0, i as int), icons),
            failed == failed_count(checks@.subrange(0, i as int)),
            failed <= i,
        decreases checks.len() - i,
    {
        let check = &checks[i];
        let icon = if check.passed {
            color_success(ICON_PASS)
        } else {
            color_failure(ICON_CRITICAL)
        };
        push_str(&mut output, icon.as_str());
        push_str(&mut output, "  ");
        push_str(&mut output, check.component.as_str());
        push_str(&mut output, "                     ");
        push_str(&mut output, check.message.as_str());
        push_str(&mut output, "\n");
        if !check.passed {
            failed = failed + 1;
        }
        proof {
            let sub = checks@.subrange(0, i as int + 1);
            let prev_icons = icons;
            icons = icons.push(icon@);
            assert(sub.drop_last() =~= checks@.subrange(0, i as int));
            assert(sub.last() == checks@[i as int]);
            assert(icons.drop_last() =~= prev_icons);
            assert(output@ =~= head + check_lines(sub, icons));
            assert forall|j: int| 0 <= j < sub.len() implies if sub[j].passed {
                painted(#[trigger] icons[j], "✓"@, "1;92"@)
            } else {
                painted(icons[j], "✗"@, "1;91"@)
            } by {
                if j < i {
                    assert(sub[j] == checks@.subrange(0, i as int)[j]);
                    assert(icons[j] == prev_icons[j]);
                }
            }
        }
        i = i + 1;
    }
    assert(checks@.subrange(0, checks@.len() as int) =~= checks@);
    push_str(&mut output, "\n");
    push_str(&mut output, d.as_str());
    push_str(&mut output, "\n");
    let summary_icon;
    if failed == 0 {
        summary_icon = color_success(ICON_PASS);
        push_str(&mut output, summary_icon.as_str());
        push_str(&mut output, " All ");
        push_u128(&mut output, checks.len() as u128);
        push_str(&mut output, " components healthy. Truent is ready.\n");
    } else {
        summary_icon = color_failure(ICON_CRITICAL);
        push_str(&mut output, summary_icon.as_str());
        push_str(&mut output, " ");
        push_u128(&mut output, failed as u128);
        push_str(&mut output, " components have issues.\n");
    }
    push_str(&mut output, d.as_str());
    push_str(&mut output, "\n");
    assert(output@ =~= doctor_text(checks@, width as nat, label@, icons, summary_icon@));
    output
}

/// The parts of a check header that `colored` paints.
pub struct HeaderParts {
    /// The painted rule.
    pub rule: Seq<char>,
    /// The painted tool name.
    pub name: Seq<char>,
    /// The painted separator.
    pub dot: Seq<char>,
    /// The painted tagline.
    pub tagline: Seq<char>,
    /// The painted version.
    pub version: Seq<char>,
    /// The painted labels of the target, chain and config lines.
    pub labels: (Seq<char>, Seq<char>, Seq<char>),
    /// The painted target, chain and config.
    pub values: (Seq<char>, Seq<char>, Seq<char>),
    /// The painted config status.
    pub status: Seq<char>,
}

/// The rendering of a check header from its painted parts.
pub open spec fn header_text(p: HeaderParts, has_config: bool) -> Seq<char> {
    p.rule + "\n"@ + p.name + "  "@ + p.dot + "  "@ + p.tagline + "  "@ + p.dot + "\n"@ + p.version
        + "\n"@ + p.rule + "\n"@ + "\n"@ + p.labels.0 + "  "@ + p.values.0 + "\n"@ + p.labels.1
        + "  "@ + p.values.1 + "\n"@ + (if has_config {
        p.labels.2 + "  "@ + p.values.2 + " "@ + p.status + "\n"@
    } else {
        Seq::empty()
    }) + "\n"@ + p.rule + "\n"@
}

/// The header of the check command: tool, version, target, chain and, when
/// given, the config file and whether it was found, between rules.
pub fn render_check_header(
    target: &str,
    chain: &str,
    config_path: Option<&str>,
    config_found: bool,
    width: usize,
) -> (r: String)
    ensures
        exists|p: HeaderParts|
            {
                &&& painted(p.rule, divider_text(width as nat), "2"@)
                &&& painted(p.name, "Truent"@, "1;94"@)
                &&& painted(p.dot, "·"@, "2"@)
                &&& painted(p.tagline, "Multi-chain Invariant Checker"@, "2"@)
                &&& painted(p.version, "v"@ + VERSION@, "2"@)
                &&& painted(p.labels.0, "Target"@, "1;37"@)
                &&& painted(p.values.0, target@, "37"@)
                &&& painted(p.labels.1, "Chain"@, "1;37"@)
                &&& painted(p.values.1, chain@, "37"@)
                &&& (config_path matches Some(c) ==> {
                    &&& painted(p.labels.2, "Config"@, "1;37"@)
                    &&& painted(p.values.2, c@, "37"@)
                    &&& painted(
                        p.status,
                        if config_found {
                            "(found)"@
                        } else {
                            "(not found)"@
                        },
                        "2"@,
                    )
                })
                &&& r@ == header_text(p, config_path is Some)
            },
{
    let d = divider(width);
    let rule = color_dim(d.as_str());
    let mut output = String::new();
    push_str(&mut output, rule.as_str());
    push_str(&mut output, "\n");
    let name = color_header("Truent");
    let dot = color_dim("·");
    let tagline = color_dim("Multi-chain Invariant Checker");
    push_str(&mut output, name.as_str());
    push_str(&mut output, "  ");
    push_str(&mut output, dot.as_str());
    push_str(&mut output, "  ");
    push_str(&mut output, tagline.as_str());
    push_str(&mut output, "  ");
    push_str(&mut output, dot.as_str());
    push_str(&mut output, "\n");
    let mut vtext = string_from("v");
    push_str(&mut vtext, VERSION);
    let version = color_dim(vtext.as_str());
    push_str(&mut output, version.as_str());
    push_str(&mut output, "\n");
    push_str(&mut output, rule.as_str());
    push_str(&mut output, "\n");
    push_str(&mut output, "\n");
    let l0 = color_label("Target");
    let v0 = color_value(target);
    push_str(&mut output, l0.as_str());
    push_str(&mut output, "  ");
    push_str(&mut output, v0.as_str());
    push_str(&mut output, "\n");
    let l1 = color_label("Chain");
    let v1 = color_value(chain);
    push_str(&mut output, l1.as_str());
    push_str(&mut output, "  ");
    push_str(&mut output, v1.as_str());
    push_str(&mut output, "\n");
    let ghost mut l2: Seq<char> = Seq::empty();
    let ghost mut v2: Seq<char> = Seq::empty();
    let ghost mut st: Seq<char> = Seq::empty();
    match config_path {
        Some(config) => {
            let status_text = if config_found {
                "(found)"
            } else {
                "(not found)"
            };
            let cl = color_label("Config");
            let cv = color_value(config);
            let cs = color_dim(status_text);
            push_str(&mut output, cl.as_str());
            push_str(&mut output, "  ");
            push_str(&mut output, cv.as_str());
            push_str(&mut output, " ");
            push_str(&mut output, cs.as_str());
            push_str(&mut output, "\n");
            proof {
                l2 = cl@;
                v2 = cv@;
                st = cs@;
            }
        },
        None => {},
    }
    push_str(&mut output, "\n");
    push_str(&mut output, rule.as_str());
    push_str(&mut output, "\n");
    let ghost parts = HeaderParts {
        rule: rule@,
        name: name@,
        dot: dot@,
        tagline: tagline@,
        version: version@,
        labels: (l0@, l1@, l2),
        values: (v0@, v1@, v2),
        status: st,
    };
    assert(output@ =~= header_text(parts, config_path is Some));
    output
}

/// The message shown when no violations were found.
pub fn render_no_violations() -> (r: String)
    ensures
        exists|m: Seq<char>|
            painted(m, "✓"@ + " No violations found. All checks passed."@, "1;92"@) && r@
                == "\n"@ + "  "@ + m + "\n"@,
{
    let mut text = string_from(ICON_PASS);
    push_str(&mut text, " No violations found. All checks passed.");
    let m = color_success(text.as_str());
    let mut output = string_from("\n");
    push_str(&mut output, "  ");
    push_str(&mut output, m.as_str());
    push_str(&mut output, "\n");
    output
}

/// Counts of violations by severity.
#[derive(Debug, Clone)]
pub struct SeverityBreakdown {
    /// Critical violations.
    pub critical: usize,
    /// High violations.
    pub high: usize,
    /// Medium violations.
    pub medium: usize,
    /// Low violations.
    pub low: usize,
}

/// The lines of the logo.
pub open spec fn logo_lines() -> Seq<Seq<char>> {
    seq![
        "  ████████╗██████╗ ██╗   ██╗███████╗███╗   ██╗████████╗"@,
        "  ╚══██╔══╝██╔══██╗██║   ██║██╔════╝████╗  ██║╚══██╔══╝"@,
        "     ██║   ██████╔╝██║   ██║█████╗  ██╔██╗ ██║   ██║"@,
        "     ██║   ██╔══██╗██║   ██║██╔══╝  ██║╚██╗██║   ██║"@,
        "     ██║   ██║  ██║╚██████╔╝███████╗██║ ╚████║   ██║"@,
        "     ╚═╝   ╚═╝  ╚═╝ ╚═════╝ ╚══════╝╚═╝  ╚═══╝   ╚═╝"@,
    ]
}

/// The banner: the logo, each line painted, and the painted subtitle that
/// names Truent and gives the version; nothing when output is not an
/// interactive terminal.
pub fn render_banner(version: &str, is_tty: bool) -> (r: String)
    ensures
        !is_tty ==> r@.len() == 0,
        is_tty ==> exists|lines: Seq<Seq<char>>, sub: Seq<char>|
            {
                &&& lines.len() == logo_lines().len()
                &&& forall|i: int|
                    0 <= i < lines.len() ==> painted(#[trigger] lines[i], logo_lines()[i], "1;94"@)
                &&& painted(
                    sub,
                    "  Truent  ·  Multi-chain Smart Contract Invariant Checker  ·  v"@ + version@,
                    "2"@,
                )
                &&& r@ == joined(lines, "\n"@) + "\n"@ + sub + "\n"@
            },
{
    if !is_tty {
        return String::new();
    }
    let logo: Vec<&str> = vec![
        "  ████████╗██████╗ ██╗   ██╗███████╗███╗   ██╗████████╗",
        "  ╚══██╔══╝██╔══██╗██║   ██║██╔════╝████╗  ██║╚══██╔══╝",
        "     ██║   ██████╔╝██║   ██║█████╗  ██╔██╗ ██║   ██║",
        "     ██║   ██╔══██╗██║   ██║██╔══╝  ██║╚██╗██║   ██║",
        "     ██║   ██║  ██║╚██████╔╝███████╗██║ ╚████║   ██║",
        "     ╚═╝   ╚═╝  ╚═╝ ╚═════╝ ╚══════╝╚═╝  ╚═══╝   ╚═╝",
    ];
    let mut colored_lines: Vec<String> = Vec::new();
    let mut i: usize = 0;
    while i < logo.len()
        invariant
            i <= logo.len(),
            logo@.len() == logo_lines().len(),
            forall|k: int| 0 <= k < logo@.len() ==> #[trigger] logo@[k]@ == logo_lines()[k],
            colored_lines@.len() == i,
            forall|k: int|
                0 <= k < i ==> painted(#[trigger] colored_lines@[k]@, logo_lines()[k], "1;94"@),
        decreases logo.len() - i,
    {
        colored_lines.push(color_header(logo[i]));
        i = i + 1;
    }
    let joined_logo = crate::text::join_strings(colored_lines.as_slice(), "\n");
    let mut subtitle = string_from("  Truent  ·  Multi-chain Smart Contract Invariant Checker  ·  v");
    push_str(&mut subtitle, version);
    let sub = color_dim(subtitle.as_str());
    let mut out = joined_logo;
    push_str(&mut out, "\n");
    push_str(&mut out, sub.as_str());
    push_str(&mut out, "\n");
    proof {
        let lines = colored_lines@.map_values(|s: String| s@);
        assert forall|k: int| 0 <= k < lines.len() implies painted(
            #[trigger] lines[k],
            logo_lines()[k],
            "1;94"@,
        ) by {
            assert(lines[k] == colored_lines@[k]@);
        }
    }
    out
}


/// What a run's summary reports overall.
#[derive(Debug, Clone, Copy, PartialEq, Eq, Structural)]
pub enum RunStatus {
    /// Some violation was reproduced by execution.
    Fail,
    /// Nothing was reproduced, but there are leads to review.
    Review,
    /// Nothing was found.
    Pass,
}

/// The overall status of a run: it fails only on reproduced violations;
/// unproven leads ask for review.
pub fn run_status(proven: usize, leads: usize) -> (r: RunStatus)
    ensures
        r == (if proven > 0 {
            RunStatus::Fail
        } else if leads > 0 {
            RunStatus::Review
        } else {
            RunStatus::Pass
        }),
{
    if proven > 0 {
        RunStatus::Fail
    } else if leads > 0 {
        RunStatus::Review
    } else {
        RunStatus::Pass
    }
}

/// How many of the ten slots of a severity bar are filled: `count` out of
/// `max`, rounded up; none when `max` is 0.
pub fn bar_fill(count: usize, max: usize) -> (r: usize)
    requires
        count * 10 + max <= usize::MAX,
    ensures
        r == (if max == 0 {
            0
        } else {
            (count * 10 + max - 1) / (max as int)
        }),
{
    if max == 0 {
        0
    } else {
        (count * 10 + max - 1) / max
    }
}

} // verus!
