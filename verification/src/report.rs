//! Report helpers of the command line tool: titles, documentation links and
//! CWE classes of findings, the violations reports show, and severity ranks.
use vstd::prelude::*;
use crate::finding::{Evidence, Finding, Severity, severity_name};
use crate::strmap::string_views;
use crate::words::{trim_span, trimmed};
use crate::text::{
    has_prefix, has_substring, joined, push_str, push_u128, replace_all, replaced, str_contains,
    str_eq, str_starts_with, string_from, to_lowercase, unicode_lowercase, dec_digits, chars_of,
    span_text, usize_to_string,
};

verus! {

/// The chains the tool analyzes.
#[derive(Debug, Clone, Copy, PartialEq, Eq, Structural)]
pub enum ChainArg {
    /// Ethereum and EVM-compatible chains.
    Evm,
    /// Solana.
    Solana,
    /// Move (Aptos, Sui).
    Move,
    /// Soroban (Stellar).
    Soroban,
}

/// Severity thresholds a user can pass.
#[derive(Debug, Clone, Copy, PartialEq, Eq, Structural)]
pub enum SeverityArg {
    /// Low severity issues.
    Low,
    /// Medium severity issues.
    Medium,
    /// High severity issues.
    High,
    /// Critical severity issues.
    Critical,
}

/// The file extension of a chain's source files.
pub open spec fn extension_of(chain: ChainArg) -> Seq<char> {
    match chain {
        ChainArg::Evm => "sol"@,
        ChainArg::Solana => "rs"@,
        ChainArg::Move => "move"@,
        ChainArg::Soroban => "rs"@,
    }
}

/// The file extension of a chain's source files.
pub fn chain_extension(chain: &ChainArg) -> (r: &'static str)
    ensures
        r@ == extension_of(*chain),
{
    match chain {
        ChainArg::Evm => "sol",
        ChainArg::Solana => "rs",
        ChainArg::Move => "move",
        ChainArg::Soroban => "rs",
    }
}

/// What `char::to_uppercase` yields for a character, collected.
pub uninterp spec fn char_uppercase(c: char) -> Seq<char>;

/// `char::to_uppercase`, collected into a string.
#[verifier::external_body]
fn uppercase_char(c: char) -> (r: String)
    ensures
        r@ == char_uppercase(c),
{
    c.to_uppercase().collect::<String>()
}

/// `s` without the prefix `p` if it has it, else `fallback`.
pub open spec fn strip_or(s: Seq<char>, p: Seq<char>, fallback: Seq<char>) -> Seq<char> {
    if has_prefix(s, p) {
        s.skip(p.len() as int)
    } else {
        fallback
    }
}

/// The pieces of `s` between underscores, from index `start` on.
pub open spec fn words_from(s: Seq<char>, start: int) -> Seq<Seq<char>>
    decreases s.len() - start,
{
    if start < 0 || start > s.len() {
        Seq::empty()
    } else {
        match crate::text::first_occurrence_from(s, seq!['_'], start) {
            None => seq![s.subrange(start, s.len() as int)],
            Some(i) => if start <= i < s.len() {
                seq![s.subrange(start, i)] + words_from(s, i + 1)
            } else {
                Seq::empty()
            },
        }
    }
}

/// A word with its first character in upper case.
pub open spec fn capitalized(w: Seq<char>) -> Seq<char> {
    if w.len() == 0 {
        Seq::empty()
    } else {
        char_uppercase(w[0]) + w.skip(1)
    }
}

/// The title of an invariant: its ID without an `evm_`, `sol_` or `move_`
/// prefix, each underscore-separated word capitalized, joined by spaces.
pub open spec fn title_of(id: Seq<char>) -> Seq<char> {
    let stripped = if has_prefix(id, "evm_"@) {
        id.skip(4)
    } else if has_prefix(id, "sol_"@) {
        id.skip(4)
    } else if has_prefix(id, "move_"@) {
        id.skip(5)
    } else {
        id
    };
    joined(words_from(stripped, 0).map_values(|w: Seq<char>| capitalized(w)), " "@)
}

/// The characters of `v` from `lo` up to `hi`.
fn slice_text(v: &Vec<char>, lo: usize, hi: usize) -> (r: String)
    requires
        lo <= hi <= v.len(),
    ensures
        r@ == v@.subrange(lo as int, hi as int),
{
    let mut out = String::new();
    let mut k = lo;
    while k < hi
        invariant
            lo <= k <= hi,
            hi <= v.len(),
            out@ == v@.subrange(lo as int, k as int),
        decreases hi - k,
    {
        crate::text::push_char(&mut out, v[k]);
        k = k + 1;
    }
    out
}

/// The word with its first character upper-cased.
fn capitalize(w: &str) -> (r: String)
    ensures
        r@ == capitalized(w@),
{
    let wc = crate::text::chars_of(w);
    if wc.len() == 0 {
        return String::new();
    }
    let mut out = uppercase_char(wc[0]);
    let rest = slice_text(&wc, 1, wc.len());
    push_str(&mut out, rest.as_str());
    assert(wc@.subrange(1, wc@.len() as int) =~= w@.skip(1));
    out
}

/// A human-readable title for an invariant ID, e.g.
/// `evm_missing_post_state_health_check` becomes
/// `Missing Post State Health Check`.
pub fn invariant_id_to_title(invariant_id: &str) -> (r: String)
    ensures
        r@ == title_of(invariant_id@),
{
    let ic = crate::text::chars_of(invariant_id);
    let skip: usize = if str_starts_with(invariant_id, "evm_") {
        4
    } else if str_starts_with(invariant_id, "sol_") {
        4
    } else if str_starts_with(invariant_id, "move_") {
        5
    } else {
        0
    };
    proof {
        reveal_strlit("evm_");
        reveal_strlit("sol_");
        reveal_strlit("move_");
    }
    let stripped = slice_text(&ic, skip, ic.len());
    let ghost st = stripped@;
    assert(st =~= (if has_prefix(invariant_id@, "evm_"@) {
        invariant_id@.skip(4)
    } else if has_prefix(invariant_id@, "sol_"@) {
        invariant_id@.skip(4)
    } else if has_prefix(invariant_id@, "move_"@) {
        invariant_id@.skip(5)
    } else {
        invariant_id@
    }));
    let sc = crate::text::chars_of(stripped.as_str());
    let underscore: Vec<char> = vec!['_'];
    assert(underscore@ =~= seq!['_']);
    let mut words: Vec<String> = Vec::new();
    let mut start: usize = 0;
    let ghost caps = words_from(st, 0).map_values(|w: Seq<char>| capitalized(w));
    loop
        invariant_except_break
            words_from(st, 0).map_values(|w: Seq<char>| capitalized(w)) == words@.map_values(
                |s: String| s@,
            ) + words_from(st, start as int).map_values(|w: Seq<char>| capitalized(w)),
        invariant
            start <= sc.len(),
            sc@ == st,
            underscore@ == seq!['_'],
            caps == words_from(st, 0).map_values(|w: Seq<char>| capitalized(w)),
        ensures
            caps == words@.map_values(|s: String| s@),
        decreases sc.len() - start,
    {
        let found = crate::text::find_from(&sc, &underscore, start);
        proof {
            crate::text::lemma_first_occurrence(sc@, underscore@, start as int);
        }
        match found {
            None => {
                let piece = slice_text(&sc, start, sc.len());
                let cap = capitalize(piece.as_str());
                let ghost before = words@.map_values(|s: String| s@);
                words.push(cap);
                proof {
                    assert(words@.map_values(|s: String| s@) =~= before.push(
                        capitalized(st.subrange(start as int, st.len() as int)),
                    ));
                    assert(words_from(st, start as int).map_values(|w: Seq<char>| capitalized(w))
                        =~= seq![capitalized(st.subrange(start as int, st.len() as int))]);
                    assert(words_from(st, 0).map_values(|w: Seq<char>| capitalized(w))
                        =~= words@.map_values(|s: String| s@));
                }
                break;
            },
            Some(i) => {
                let piece = slice_text(&sc, start, i);
                let cap = capitalize(piece.as_str());
                let ghost before = words@.map_values(|s: String| s@);
                words.push(cap);
                proof {
                    let rest = words_from(st, i as int + 1);
                    assert(words_from(st, start as int) =~= seq![st.subrange(start as int, i as int)]
                        + rest);
                    assert(words_from(st, start as int).map_values(|w: Seq<char>| capitalized(w))
                        =~= seq![capitalized(st.subrange(start as int, i as int))]
                        + rest.map_values(|w: Seq<char>| capitalized(w)));
                    assert(words@.map_values(|s: String| s@) =~= before.push(
                        capitalized(st.subrange(start as int, i as int)),
                    ));
                }
                start = i + 1;
            },
        }
    }
    let ws = words.as_slice();
    let r = crate::text::join_strings(ws, " ");
    r
}

/// The documentation anchors of known invariant patterns, in the order
/// they are tried.
pub open spec fn reference_table() -> Seq<(Seq<char>, Seq<char>)> {
    seq![
        ("reentrancy_classic"@, "#1-balance_conservation"@),
        ("overflow"@, "#2-no_integer_overflow"@),
        ("underflow"@, "#3-no_integer_underflow"@),
        ("balance_check"@, "#4-positive_balance"@),
        ("conservation_check"@, "#5-supply_tracking"@),
        ("conservation_check_absent"@, "#5-supply_tracking"@),
        ("missing_signer"@, "#6-owner_only_function"@),
        ("access_control"@, "#7-role_based_access"@),
        ("shallow_auth"@, "#7-role_based_access"@),
        ("single_eoa_admin"@, "#8-admin_override_safe"@),
        ("permission"@, "#9-permission_consistency"@),
        ("state_transition"@, "#11-state_transition_valid"@),
        ("reentrancy"@, "#12-no_reentrancy"@),
        ("paused"@, "#13-paused_state_valid"@),
        ("bridge"@, "#14-bridge_conservation"@),
        ("oracle"@, "#15-oracle_freshness"@),
        ("oracle_spot_price"@, "#15-oracle_freshness"@),
        ("oracle_self_trade"@, "#15-oracle_freshness"@),
        ("oracle_rate"@, "#15-oracle_freshness"@),
        ("canonical"@, "#16-canonical_state"@),
        ("signature"@, "#17-signature_validation"@),
        ("nonce"@, "#18-nonce_ordering"@),
        ("gas"@, "#19-gas_efficiency"@),
        ("delegatecall"@, "#20-safe_delegatecall"@),
        ("selfdestruct"@, "#21-safe_selfdestruct"@),
        ("timestamp"@, "#22-no_timestamp_dependence"@),
        ("flash_loan"@, "#12-no_reentrancy"@),
        ("dvn"@, "#15-oracle_freshness"@),
        ("merkle_root"@, "#11-state_transition_valid"@),
        ("precision_loss"@, "#2-no_integer_overflow"@),
        ("zero_challenge"@, "#11-state_transition_valid"@),
        ("public_relay"@, "#6-owner_only_function"@),
        ("aa_entropy"@, "#17-signature_validation"@),
        ("bridge_address"@, "#14-bridge_conservation"@),
        ("synthetic_collateral"@, "#16-canonical_state"@),
        ("dvn_single_point"@, "#15-oracle_freshness"@),
        ("lst_depeg"@, "#5-supply_tracking"@),
        ("erc4626_inflation"@, "#5-supply_tracking"@),
        ("token_balance_manipulation"@, "#1-balance_conservation"@),
        ("arbitrary_call_msg_value"@, "#20-safe_delegatecall"@),
        ("router_slippage"@, "#15-oracle_freshness"@),
        ("health_check"@, "#11-state_transition_valid"@),
        ("state_mutation_ordering"@, "#11-state_transition_valid"@),
        ("unbacked_synthetic_mint"@, "#5-supply_tracking"@),
        ("upgrade_path"@, "#20-safe_delegatecall"@),
        ("constructor_race"@, "#11-state_transition_valid"@),
        ("proxy_storage"@, "#11-state_transition_valid"@),
        ("arithmetic_rounding"@, "#2-no_integer_overflow"@),
        ("signer"@, "#6-owner_only_function"@),
        ("account_validation"@, "#6-owner_only_function"@),
        ("rent_exemption"@, "#10-state_immutability"@),
        ("pda_authority"@, "#11-state_transition_valid"@),
        ("sysvar_account"@, "#6-owner_only_function"@),
        ("admin_timelock"@, "#8-admin_override_safe"@),
        ("treasury_authority"@, "#8-admin_override_safe"@),
        ("durable_nonce"@, "#18-nonce_ordering"@),
        ("liquidity_conservation"@, "#1-balance_conservation"@),
        ("type_safety"@, "#11-state_transition_valid"@),
        ("resource_destruction"@, "#1-balance_conservation"@),
    ]
}

fn reference_table_exec() -> (r: Vec<(&'static str, &'static str)>)
    ensures
        r@.map_values(|p: (&str, &str)| (p.0@, p.1@)) == reference_table(),
{
    let mut v: Vec<(&'static str, &'static str)> = Vec::new();
    v.push(("reentrancy_classic", "#1-balance_conservation"));
    v.push(("overflow", "#2-no_integer_overflow"));
    v.push(("underflow", "#3-no_integer_underflow"));
    v.push(("balance_check", "#4-positive_balance"));
    v.push(("conservation_check", "#5-supply_tracking"));
    v.push(("conservation_check_absent", "#5-supply_tracking"));
    v.push(("missing_signer", "#6-owner_only_function"));
    v.push(("access_control", "#7-role_based_access"));
    v.push(("shallow_auth", "#7-role_based_access"));
    v.push(("single_eoa_admin", "#8-admin_override_safe"));
    v.push(("permission", "#9-permission_consistency"));
    v.push(("state_transition", "#11-state_transition_valid"));
    v.push(("reentrancy", "#12-no_reentrancy"));
    v.push(("paused", "#13-paused_state_valid"));
    v.push(("bridge", "#14-bridge_conservation"));
    v.push(("oracle", "#15-oracle_freshness"));
    v.push(("oracle_spot_price", "#15-oracle_freshness"));
    v.push(("oracle_self_trade", "#15-oracle_freshness"));
    v.push(("oracle_rate", "#15-oracle_freshness"));
    v.push(("canonical", "#16-canonical_state"));
    v.push(("signature", "#17-signature_validation"));
    v.push(("nonce", "#18-nonce_ordering"));
    v.push(("gas", "#19-gas_efficiency"));
    v.push(("delegatecall", "#20-safe_delegatecall"));
    v.push(("selfdestruct", "#21-safe_selfdestruct"));
    v.push(("timestamp", "#22-no_timestamp_dependence"));
    v.push(("flash_loan", "#12-no_reentrancy"));
    v.push(("dvn", "#15-oracle_freshness"));
    v.push(("merkle_root", "#11-state_transition_valid"));
    v.push(("precision_loss", "#2-no_integer_overflow"));
    v.push(("zero_challenge", "#11-state_transition_valid"));
    v.push(("public_relay", "#6-owner_only_function"));
    v.push(("aa_entropy", "#17-signature_validation"));
    v.push(("bridge_address", "#14-bridge_conservation"));
    v.push(("synthetic_collateral", "#16-canonical_state"));
    v.push(("dvn_single_point", "#15-oracle_freshness"));
    v.push(("lst_depeg", "#5-supply_tracking"));
    v.push(("erc4626_inflation", "#5-supply_tracking"));
    v.push(("token_balance_manipulation", "#1-balance_conservation"));
    v.push(("arbitrary_call_msg_value", "#20-safe_delegatecall"));
    v.push(("router_slippage", "#15-oracle_freshness"));
    v.push(("health_check", "#11-state_transition_valid"));
    v.push(("state_mutation_ordering", "#11-state_transition_valid"));
    v.push(("unbacked_synthetic_mint", "#5-supply_tracking"));
    v.push(("upgrade_path", "#20-safe_delegatecall"));
    v.push(("constructor_race", "#11-state_transition_valid"));
    v.push(("proxy_storage", "#11-state_transition_valid"));
    v.push(("arithmetic_rounding", "#2-no_integer_overflow"));
    v.push(("signer", "#6-owner_only_function"));
    v.push(("account_validation", "#6-owner_only_function"));
    v.push(("rent_exemption", "#10-state_immutability"));
    v.push(("pda_authority", "#11-state_transition_valid"));
    v.push(("sysvar_account", "#6-owner_only_function"));
    v.push(("admin_timelock", "#8-admin_override_safe"));
    v.push(("treasury_authority", "#8-admin_override_safe"));
    v.push(("durable_nonce", "#18-nonce_ordering"));
    v.push(("liquidity_conservation", "#1-balance_conservation"));
    v.push(("type_safety", "#11-state_transition_valid"));
    v.push(("resource_destruction", "#1-balance_conservation"));
    assert(v@.map_values(|p: (&str, &str)| (p.0@, p.1@)) =~= reference_table());
    v
}

/// The first entry from index `i` on whose pattern occurs in `id`.
pub open spec fn first_pattern(id: Seq<char>, table: Seq<(Seq<char>, Seq<char>)>, i: int) -> Option<
    int,
>
    decreases table.len() - i,
{
    if i < 0 || i >= table.len() {
        None
    } else if has_substring(id, table[i].0) {
        Some(i)
    } else {
        first_pattern(id, table, i + 1)
    }
}

/// The lowercased ID the reference lookup matches against.
pub open spec fn reference_key(id: Seq<char>) -> Seq<char> {
    let l = unicode_lowercase(id);
    strip_or(strip_or(strip_or(l, "evm_"@, l), "sol_"@, l), "move_"@, l)
}

/// The documentation link of an invariant: the anchor of the first known
/// pattern its lowercased ID contains, or a search for the ID.
pub open spec fn reference_of(id: Seq<char>) -> Seq<char> {
    match first_pattern(reference_key(id), reference_table(), 0) {
        Some(i) => "https://github.com/geekstrancend/Truent/blob/main/docs/INVARIANT_LIBRARY.md"@
            + reference_table()[i].1,
        None => "https://github.com/geekstrancend/Truent/search?q="@ + replaced(
            unicode_lowercase(id),
            "_"@,
            "%20"@,
        ),
    }
}

/// `s` without the prefix `p` if it has it, else `fallback`.
fn strip_prefix_or(s: &str, p: &str, fallback: &str) -> (r: String)
    ensures
        r@ == strip_or(s@, p@, fallback@),
{
    if str_starts_with(s, p) {
        let sc = crate::text::chars_of(s);
        let pc = crate::text::chars_of(p);
        let r = slice_text(&sc, pc.len(), sc.len());
        assert(sc@.subrange(pc@.len() as int, sc@.len() as int) =~= s@.skip(p@.len() as int));
        r
    } else {
        string_from(fallback)
    }
}

/// The documentation link for an invariant ID.
pub fn get_vulnerability_reference(invariant_id: &str) -> (r: String)
    ensures
        r@ == reference_of(invariant_id@),
{
    let table = reference_table_exec();
    let id_lower = to_lowercase(invariant_id);
    let a = strip_prefix_or(id_lower.as_str(), "evm_", id_lower.as_str());
    let b = strip_prefix_or(a.as_str(), "sol_", id_lower.as_str());
    let clean_id = strip_prefix_or(b.as_str(), "move_", id_lower.as_str());
    let ghost tv = table@.map_values(|p: (&str, &str)| (p.0@, p.1@));
    let mut i: usize = 0;
    while i < table.len()
        invariant
            i <= table.len(),
            tv == reference_table(),
            tv == table@.map_values(|p: (&str, &str)| (p.0@, p.1@)),
            clean_id@ == reference_key(invariant_id@),
            first_pattern(clean_id@, tv, 0) == first_pattern(clean_id@, tv, i as int),
        decreases table.len() - i,
    {
        let (pattern, anchor) = table[i];
        assert(tv[i as int] == (pattern@, anchor@));
        if str_contains(clean_id.as_str(), pattern) {
            let mut url = string_from(
                "https://github.com/geekstrancend/Truent/blob/main/docs/INVARIANT_LIBRARY.md",
            );
            push_str(&mut url, anchor);
            return url;
        }
        i = i + 1;
    }
    let mut url = string_from("https://github.com/geekstrancend/Truent/search?q=");
    proof {
        reveal_strlit("_");
    }
    let q = replace_all(id_lower.as_str(), "_", "%20");
    push_str(&mut url, q.as_str());
    url
}

/// The CWE class of each invariant pattern, in the order they are tried.
pub open spec fn cwe_table() -> Seq<(Seq<char>, Seq<char>)> {
    seq![
        ("reentrancy"@, "CWE-841 · Improper Enforcement of Behavioral Workflow"@),
        ("overflow"@, "CWE-190 · Integer Overflow"@),
        ("underflow"@, "CWE-191 · Integer Underflow"@),
        ("return"@, "CWE-252 · Unchecked Return Value"@),
        ("delegatecall"@, "CWE-758 · Reliance on Undefined Behavior"@),
        ("access"@, "CWE-269 · Improper Input Validation"@),
        ("timestamp"@, "CWE-829 · Inclusion of Functionality from Untrusted Control Sphere"@),
        ("frontrun"@, "CWE-362 · Concurrent Execution using Shared Resource"@),
        ("signer"@, "CWE-345 · Insufficient Verification of Data Authenticity"@),
    ]
}

fn cwe_table_exec() -> (r: Vec<(&'static str, &'static str)>)
    ensures
        r@.map_values(|p: (&str, &str)| (p.0@, p.1@)) == cwe_table(),
{
    let mut v: Vec<(&'static str, &'static str)> = Vec::new();
    v.push(("reentrancy", "CWE-841 · Improper Enforcement of Behavioral Workflow"));
    v.push(("overflow", "CWE-190 · Integer Overflow"));
    v.push(("underflow", "CWE-191 · Integer Underflow"));
    v.push(("return", "CWE-252 · Unchecked Return Value"));
    v.push(("delegatecall", "CWE-758 · Reliance on Undefined Behavior"));
    v.push(("access", "CWE-269 · Improper Input Validation"));
    v.push(("timestamp", "CWE-829 · Inclusion of Functionality from Untrusted Control Sphere"));
    v.push(("frontrun", "CWE-362 · Concurrent Execution using Shared Resource"));
    v.push(("signer", "CWE-345 · Insufficient Verification of Data Authenticity"));
    assert(v@.map_values(|p: (&str, &str)| (p.0@, p.1@)) =~= cwe_table());
    v
}

/// The CWE class of an invariant: that of the first pattern its ID
/// contains, or CWE-676.
pub open spec fn cwe_of(id: Seq<char>) -> Seq<char> {
    match first_pattern(id, cwe_table(), 0) {
        Some(i) => cwe_table()[i].1,
        None => "CWE-676 · Use of Potentially Dangerous Function"@,
    }
}

/// The CWE class of an invariant ID.
pub fn map_invariant_to_cwe(invariant_id: &str) -> (r: String)
    ensures
        r@ == cwe_of(invariant_id@),
{
    let table = cwe_table_exec();
    let ghost tv = table@.map_values(|p: (&str, &str)| (p.0@, p.1@));
    let mut i: usize = 0;
    while i < table.len()
        invariant
            i <= table.len(),
            tv == cwe_table(),
            tv == table@.map_values(|p: (&str, &str)| (p.0@, p.1@)),
            first_pattern(invariant_id@, tv, 0) == first_pattern(invariant_id@, tv, i as int),
        decreases table.len() - i,
    {
        let (pattern, class) = table[i];
        assert(tv[i as int] == (pattern@, class@));
        if str_contains(invariant_id, pattern) {
            return string_from(class);
        }
        i = i + 1;
    }
    string_from("CWE-676 · Use of Potentially Dangerous Function")
}

/// A violation as reports show it.
#[derive(Debug, Clone)]
pub struct Violation {
    /// Position of this violation in the report, from 1.
    pub index: usize,
    /// Number of violations in the report.
    pub total: usize,
    /// Severity, in lower case.
    pub severity: String,
    /// Human-readable title.
    pub title: String,
    /// The invariant violated.
    pub invariant_id: String,
    /// `file:line`.
    pub location: String,
    /// CWE class.
    pub cwe: String,
    /// What was found.
    pub message: String,
    /// What to do about it.
    pub recommendation: String,
    /// Documentation link.
    pub reference: String,
    /// The code concerned.
    pub code_snippet: String,
    /// Whether execution demonstrated it, or it is a lead.
    pub evidence: Evidence,
}

/// The violation a report shows for a finding.
pub open spec fn violation_of(f: Finding, index: usize, total: usize, v: Violation) -> bool {
    &&& v.index == index
    &&& v.total == total
    &&& v.severity@ == unicode_lowercase(severity_name(f.severity))
    &&& v.title@ == title_of(f.invariant_id@)
    &&& v.invariant_id@ == f.invariant_id@
    &&& v.location@ == f.file@ + ":"@ + dec_digits(f.line as nat)
    &&& v.cwe@ == cwe_of(f.invariant_id@)
    &&& v.message@ == f.message@
    &&& v.recommendation@ == "Review this finding and apply the recommended fix. Details: "@
        + reference_of(f.invariant_id@)
    &&& v.reference@ == reference_of(f.invariant_id@)
    &&& v.code_snippet@ == (match f.source_fragment {
        Some(s) => s@,
        None => f.snippet@,
    })
    &&& v.evidence == f.evidence
}

/// The violation a report shows for a finding.
pub fn finding_to_violation(finding: &Finding, index: usize, total: usize) -> (r: Violation)
    ensures
        violation_of(*finding, index, total, r),
{
    let reference = get_vulnerability_reference(finding.invariant_id.as_str());
    let mut location = string_from(finding.file.as_str());
    push_str(&mut location, ":");
    push_u128(&mut location, finding.line as u128);
    let mut recommendation = string_from(
        "Review this finding and apply the recommended fix. Details: ",
    );
    push_str(&mut recommendation, reference.as_str());
    let code_snippet = match &finding.source_fragment {
        Some(s) => string_from(s.as_str()),
        None => string_from(finding.snippet.as_str()),
    };
    Violation {
        index,
        total,
        severity: to_lowercase(finding.severity.name()),
        title: invariant_id_to_title(finding.invariant_id.as_str()),
        invariant_id: string_from(finding.invariant_id.as_str()),
        location,
        cwe: map_invariant_to_cwe(finding.invariant_id.as_str()),
        message: string_from(finding.message.as_str()),
        recommendation,
        reference,
        code_snippet,
        evidence: finding.evidence,
    }
}

/// The rank of a severity class: 3 critical, 2 high, 1 medium, else 0.
pub open spec fn class_rank(l: Seq<char>) -> u32 {
    if l == "critical"@ {
        3
    } else if l == "high"@ {
        2
    } else if l == "medium"@ {
        1
    } else {
        0
    }
}

/// The rank of a severity name, compared without regard to case: 3 for
/// critical down to 0 for low or anything else.
pub fn severity_rank(name: &str) -> (r: u32)
    ensures
        r == class_rank(unicode_lowercase(name@)),
{
    let l = to_lowercase(name);
    if str_eq(l.as_str(), "critical") {
        3
    } else if str_eq(l.as_str(), "high") {
        2
    } else if str_eq(l.as_str(), "medium") {
        1
    } else {
        0
    }
}

/// The rank of a severity threshold, on the scale of `severity_rank`.
pub fn severity_arg_rank(arg: &SeverityArg) -> (r: u32)
    ensures
        r == (match *arg {
            SeverityArg::Critical => 3u32,
            SeverityArg::High => 2u32,
            SeverityArg::Medium => 1u32,
            SeverityArg::Low => 0u32,
        }),
{
    match arg {
        SeverityArg::Critical => 3,
        SeverityArg::High => 2,
        SeverityArg::Medium => 1,
        SeverityArg::Low => 0,
    }
}

/// Counts of violations by lowercased severity: critical, high, medium,
/// and low for everything else.
pub open spec fn severity_counts(vs: Seq<Violation>) -> (nat, nat, nat, nat)
    decreases vs.len(),
{
    if vs.len() == 0 {
        (0, 0, 0, 0)
    } else {
        let (c, h, m, l) = severity_counts(vs.drop_last());
        let s = unicode_lowercase(vs.last().severity@);
        if s == "critical"@ {
            ((c + 1) as nat, h, m, l)
        } else if s == "high"@ {
            (c, (h + 1) as nat, m, l)
        } else if s == "medium"@ {
            (c, h, (m + 1) as nat, l)
        } else {
            (c, h, m, (l + 1) as nat)
        }
    }
}

/// The number of violations of each severity: critical, high, medium and
/// low, anything unrecognized counted as low.
pub fn count_violations_by_severity(violations: &[Violation]) -> (r: (usize, usize, usize, usize))
    ensures
        (r.0 as nat, r.1 as nat, r.2 as nat, r.3 as nat) == severity_counts(violations@),
{
    let mut critical: usize = 0;
    let mut high: usize = 0;
    let mut medium: usize = 0;
    let mut low: usize = 0;
    let mut i: usize = 0;
    assert(violations@.subrange(0, 0) =~= Seq::<Violation>::empty());
    while i < violations.len()
        invariant
            i <= violations.len(),
            (critical as nat, high as nat, medium as nat, low as nat) == severity_counts(
                violations@.subrange(0, i as int),
            ),
            critical + high + medium + low == i,
        decreases violations.len() - i,
    {
        let s = to_lowercase(violations[i].severity.as_str());
        proof {
            let sub = violations@.subrange(0, i as int + 1);
            assert(sub.drop_last() =~= violations@.subrange(0, i as int));
            assert(sub.last() == violations@[i as int]);
        }
        if str_eq(s.as_str(), "critical") {
            critical = critical + 1;
        } else if str_eq(s.as_str(), "high") {
            high = high + 1;
        } else if str_eq(s.as_str(), "medium") {
            medium = medium + 1;
        } else {
            low = low + 1;
        }
        i = i + 1;
    }
    assert(violations@.subrange(0, violations@.len() as int) =~= violations@);
    (critical, high, medium, low)
}

/// The display name of a chain.
pub open spec fn chain_display(chain: ChainArg) -> Seq<char> {
    match chain {
        ChainArg::Evm => "EVM"@,
        ChainArg::Solana => "Solana"@,
        ChainArg::Move => "Move"@,
        ChainArg::Soroban => "Soroban"@,
    }
}

/// The display name of a chain, as reports and headers show it.
pub fn chain_name(chain: &ChainArg) -> (r: &'static str)
    ensures
        r@ == chain_display(*chain),
{
    match chain {
        ChainArg::Evm => "EVM",
        ChainArg::Solana => "Solana",
        ChainArg::Move => "Move",
        ChainArg::Soroban => "Soroban",
    }
}

/// How many detectors run for a chain: a lower bound on the checks made,
/// since one detector can report several findings.
pub open spec fn detectors_for(chain: ChainArg) -> usize {
    match chain {
        ChainArg::Evm => 44,
        ChainArg::Solana => 11,
        ChainArg::Move => 7,
        ChainArg::Soroban => 9,
    }
}

/// The checks a run counts and how many of them passed, for `violations`
/// found on `chain`: at least one check per detector and per violation.
pub fn check_totals(chain: &ChainArg, violations: usize) -> (r: (usize, usize))
    ensures
        r.0 == (if detectors_for(*chain) >= violations {
            detectors_for(*chain)
        } else {
            violations
        }),
        r.1 == r.0 - violations,
{
    let detector_count: usize = match chain {
        ChainArg::Evm => 44,
        ChainArg::Solana => 11,
        ChainArg::Move => 7,
        ChainArg::Soroban => 9,
    };
    let total = if detector_count >= violations {
        detector_count
    } else {
        violations
    };
    (total, total - violations)
}

/// The rank of a severity threshold.
pub open spec fn arg_rank(arg: SeverityArg) -> u32 {
    match arg {
        SeverityArg::Critical => 3u32,
        SeverityArg::High => 2u32,
        SeverityArg::Medium => 1u32,
        SeverityArg::Low => 0u32,
    }
}

/// `v` passes the filters: at least `min_severity`, where one is given,
/// and with an invariant ID containing one of `ids`, where any are given.
pub open spec fn selected(v: Violation, min_severity: Option<SeverityArg>, ids: Seq<String>) -> bool {
    &&& (min_severity matches Some(m) ==> class_rank(unicode_lowercase(v.severity@)) >= arg_rank(m))
    &&& (ids.len() > 0 ==> exists|k: int| 0 <= k < ids.len() && has_substring(v.invariant_id@, #[trigger] ids[k]@))
}

/// The violations that pass the filters, in order.
pub open spec fn selected_violations(
    vs: Seq<Violation>,
    min_severity: Option<SeverityArg>,
    ids: Seq<String>,
) -> Seq<Violation>
    decreases vs.len(),
{
    if vs.len() == 0 {
        vs
    } else {
        selected_violations(vs.drop_last(), min_severity, ids) + if selected(vs.last(), min_severity, ids) {
            seq![vs.last()]
        } else {
            Seq::empty()
        }
    }
}

/// `w` is `v` numbered `index` of `total`.
pub open spec fn renumbered(v: Violation, w: Violation, index: usize, total: usize) -> bool {
    &&& w.index == index
    &&& w.total == total
    &&& w.severity == v.severity
    &&& w.title == v.title
    &&& w.invariant_id == v.invariant_id
    &&& w.location == v.location
    &&& w.cwe == v.cwe
    &&& w.message == v.message
    &&& w.recommendation == v.recommendation
    &&& w.reference == v.reference
    &&& w.code_snippet == v.code_snippet
    &&& w.evidence == v.evidence
}

fn passes_filters(v: &Violation, min_severity: Option<SeverityArg>, ids: &[String]) -> (r: bool)
    ensures
        r == selected(*v, min_severity, ids@),
{
    match min_severity {
        Some(m) => {
            if severity_rank(v.severity.as_str()) < severity_arg_rank(&m) {
                return false;
            }
        },
        None => {},
    }
    if ids.len() == 0 {
        return true;
    }
    let mut k: usize = 0;
    while k < ids.len()
        invariant
            k <= ids@.len(),
            min_severity matches Some(m) ==> class_rank(unicode_lowercase(v.severity@)) >= arg_rank(m),
            forall|j: int| 0 <= j < k ==> !has_substring(v.invariant_id@, #[trigger] ids@[j]@),
        decreases ids.len() - k,
    {
        if str_contains(v.invariant_id.as_str(), ids[k].as_str()) {
            return true;
        }
        k = k + 1;
    }
    false
}

/// The violations of at least `min_severity`, where one is given, whose
/// invariant ID contains one of `invariant_ids`, where any are given; kept
/// in order and numbered anew from 1.
pub fn filter_violations(
    violations: Vec<Violation>,
    min_severity: Option<SeverityArg>,
    invariant_ids: &[String],
) -> (r: Vec<Violation>)
    ensures
        r@.len() == selected_violations(violations@, min_severity, invariant_ids@).len(),
        forall|j: int|
            0 <= j < r@.len() ==> renumbered(
                selected_violations(violations@, min_severity, invariant_ids@)[j],
                #[trigger] r@[j],
                (j + 1) as usize,
                r@.len() as usize,
            ),
{
    let ghost all = violations@;
    let ghost ids = invariant_ids@;
    let mut rest = violations;
    let mut kept: Vec<Violation> = Vec::new();
    let ghost mut done: int = 0;
    assert(all.subrange(0, 0) =~= Seq::<Violation>::empty());
    while rest.len() > 0
        invariant
            0 <= done <= all.len(),
            ids == invariant_ids@,
            rest@ == all.subrange(done, all.len() as int),
            kept@ == selected_violations(all.subrange(0, done), min_severity, ids),
        decreases rest.len(),
    {
        let v = rest.remove(0);
        proof {
            let next = all.subrange(0, done + 1);
            assert(v == all[done]);
            assert(next.drop_last() =~= all.subrange(0, done));
            assert(next.last() == v);
        }
        if passes_filters(&v, min_severity, invariant_ids) {
            kept.push(v);
        }
        proof {
            done = done + 1;
            assert(rest@ =~= all.subrange(done, all.len() as int));
        }
    }
    assert(all.subrange(0, all.len() as int) =~= all);
    let ghost chosen = kept@;
    let total = kept.len();
    let mut out: Vec<Violation> = Vec::new();
    let mut i: usize = 0;
    while kept.len() > 0
        invariant
            i <= total,
            total == chosen.len(),
            kept@ == chosen.subrange(i as int, total as int),
            out@.len() == i,
            forall|j: int| 0 <= j < i ==> renumbered(chosen[j], #[trigger] out@[j], (j + 1) as usize, total),
        decreases kept.len(),
    {
        let mut v = kept.remove(0);
        assert(v == chosen[i as int]);
        v.index = i + 1;
        v.total = total;
        out.push(v);
        i = i + 1;
        assert(kept@ =~= chosen.subrange(i as int, total as int));
    }
    out
}

/// Whether a violation fails the run: it is at least as severe as
/// `fail_on`, and it was demonstrated by execution unless leads are asked to
/// fail the run too.
pub open spec fn fails_run(v: Violation, fail_on: SeverityArg, fail_on_leads: bool) -> bool {
    &&& class_rank(unicode_lowercase(v.severity@)) >= arg_rank(fail_on)
    &&& (fail_on_leads || v.evidence == Evidence::Proven)
}

/// Whether the run fails: some violation is at least as severe as
/// `fail_on` and was reproduced by execution. A lead fails the run only
/// where `fail_on_leads` is set.
pub fn fails_at(violations: &[Violation], fail_on: SeverityArg, fail_on_leads: bool) -> (r: bool)
    ensures
        r == exists|j: int|
            0 <= j < violations@.len() && fails_run(#[trigger] violations@[j], fail_on, fail_on_leads),
{
    let fail_rank = severity_arg_rank(&fail_on);
    let mut i: usize = 0;
    while i < violations.len()
        invariant
            i <= violations@.len(),
            fail_rank == arg_rank(fail_on),
            forall|j: int| 0 <= j < i ==> !fails_run(#[trigger] violations@[j], fail_on, fail_on_leads),
        decreases violations.len() - i,
    {
        let v = &violations[i];
        if severity_rank(v.severity.as_str()) >= fail_rank && (fail_on_leads || v.evidence.is_proven()) {
            return true;
        }
        i = i + 1;
    }
    false
}

/// A number right-aligned in three columns, as `{:3}` shows it.
pub open spec fn padded3(n: nat) -> Seq<char> {
    let d = dec_digits(n);
    if d.len() >= 3 {
        d
    } else {
        Seq::new((3 - d.len()) as nat, |i: int| ' ') + d
    }
}

/// The snippet line for line `num` of text `line`: marked `>>> ` where it
/// is the target line.
pub open spec fn snippet_line(num: nat, target: nat, line: Seq<char>) -> Seq<char> {
    (if num == target {
        ">>> "@
    } else {
        "    "@
    }) + padded3(num) + " | "@ + line + "\n"@
}

/// The snippet lines for `lines[from..to]`.
pub open spec fn snippet_lines(lines: Seq<Seq<char>>, target: nat, from: int, to: int) -> Seq<char>
    decreases to - from,
{
    if to <= from {
        Seq::empty()
    } else {
        snippet_lines(lines, target, from, to - 1) + snippet_line(to as nat, target, lines[to - 1])
    }
}

/// The code around line `line_number` (from 1) of a file's `lines`: the
/// line with up to two lines of context before and after it, each numbered,
/// the line itself marked, the whole trimmed; or, for a line the file does
/// not have, the message.
pub open spec fn snippet_text(lines: Seq<Seq<char>>, line_number: nat, path: Seq<char>) -> Seq<char> {
    if line_number == 0 || line_number > lines.len() {
        "Line "@ + dec_digits(line_number) + " is out of range in "@ + path
    } else {
        let start: int = if line_number > 2 {
            (line_number - 3) as int
        } else {
            0
        };
        let end: int = if line_number + 2 <= lines.len() {
            (line_number + 2) as int
        } else {
            lines.len() as int
        };
        trimmed(snippet_lines(lines, line_number, start, end), None)
    }
}

fn push_padded3(out: &mut String, n: usize)
    ensures
        final(out)@ == old(out)@ + padded3(n as nat),
{
    let d = usize_to_string(n);
    let len = chars_of(d.as_str()).len();
    let mut k: usize = len;
    let ghost start = out@;
    while k < 3
        invariant
            len <= k,
            k <= 3 || k == len,
            len == dec_digits(n as nat).len(),
            out@ == start + Seq::new((k - len) as nat, |i: int| ' '),
        decreases 3 - k,
    {
        push_str(out, " ");
        proof {
            reveal_strlit(" ");
        }
        k = k + 1;
        assert(out@ =~= start + Seq::new((k - len) as nat, |i: int| ' '));
    }
    push_str(out, d.as_str());
    assert(out@ =~= start + padded3(n as nat));
}

/// The code around line `line_number` of `lines`, the text of the file at
/// `path`: see `snippet_text`.
pub fn code_snippet(lines: &[String], line_number: usize, path: &str) -> (r: String)
    ensures
        r@ == snippet_text(string_views(lines@), line_number as nat, path@),
{
    let ghost ls = string_views(lines@);
    if line_number == 0 || line_number > lines.len() {
        let mut m = string_from("Line ");
        push_u128(&mut m, line_number as u128);
        push_str(&mut m, " is out of range in ");
        push_str(&mut m, path);
        return m;
    }
    let start: usize = if line_number > 2 {
        line_number - 3
    } else {
        0
    };
    let end: usize = if line_number < lines.len() - 1 {
        line_number + 2
    } else {
        lines.len()
    };
    let mut snippet = String::new();
    let mut i: usize = start;
    while i < end
        invariant
            start <= i <= end <= lines@.len(),
            ls == string_views(lines@),
            snippet@ == snippet_lines(ls, line_number as nat, start as int, i as int),
        decreases end - i,
    {
        if i + 1 == line_number {
            push_str(&mut snippet, ">>> ");
        } else {
            push_str(&mut snippet, "    ");
        }
        push_padded3(&mut snippet, i + 1);
        push_str(&mut snippet, " | ");
        push_str(&mut snippet, lines[i].as_str());
        push_str(&mut snippet, "\n");
        i = i + 1;
        assert(snippet@ =~= snippet_lines(ls, line_number as nat, start as int, i as int));
    }
    let cs = chars_of(snippet.as_str());
    let (a, b) = trim_span(&cs, 0, cs.len(), None);
    assert(cs@.subrange(0, cs@.len() as int) =~= cs@);
    span_text(&cs, a, b)
}

/// Whether report input looks like JSON: once trimmed, it opens an object
/// or an array.
pub open spec fn looks_like_json_text(s: Seq<char>) -> bool {
    let t = trimmed(s, None);
    t.len() > 0 && (t[0] == '{' || t[0] == '[')
}

/// Whether report input looks like JSON, and is to be read as analysis
/// results rather than as raw content.
pub fn looks_like_json(text: &str) -> (r: bool)
    ensures
        r == looks_like_json_text(text@),
{
    let cs = chars_of(text);
    let (a, b) = trim_span(&cs, 0, cs.len(), None);
    assert(cs@.subrange(0, cs@.len() as int) =~= cs@);
    if a < b {
        let c = cs[a];
        assert(cs@.subrange(a as int, b as int)[0] == c);
        c == '{' || c == '['
    } else {
        false
    }
}

} // verus!
