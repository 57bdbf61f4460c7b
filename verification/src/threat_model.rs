//! Defenses of invariant enforcement: re-parse verification of injected
//! code, tamper detection by hash, sandboxing of invariant expressions,
//! strict handling of uncertain mutation analysis, and isolation of
//! simulations.
use vstd::prelude::*;
use std::collections::hash_map::DefaultHasher;
use vstd::std_specs::hash::DefaultHasherAdditionalSpecFns;
use crate::model::Expression;
use crate::strmap::{StrMap, sort_strings, string_views, text_order, lemma_text_le_total};
use crate::text::{
    dec_digits, has_prefix, has_substring, joined, join_strings, push_char, push_str, push_u128,
    str_contains, str_eq, str_starts_with, string_from, to_lowercase, unicode_lowercase,
};

verus! {

/// Threat model security configuration.
#[derive(Debug, Clone)]
pub struct ThreatModelConfig {
    /// Require strict mutation detection (abort if uncertain).
    pub strict_mode: bool,
    /// Validate all generated code by re-parsing.
    pub re_parse_verification: bool,
    /// Detect tamper attempts via hash checking.
    pub tamper_detection_enabled: bool,
    /// Validate DSL expressions for sandbox escapes.
    pub dsl_sandboxing_enabled: bool,
    /// Verify simulation isolation (no file mutations).
    pub isolation_verification: bool,
}

impl Default for ThreatModelConfig {
    /// Every defense on.
    fn default() -> (r: Self)
        ensures
            r.strict_mode && r.re_parse_verification && r.tamper_detection_enabled
                && r.dsl_sandboxing_enabled && r.isolation_verification,
    {
        ThreatModelConfig {
            strict_mode: true,
            re_parse_verification: true,
            tamper_detection_enabled: true,
            dsl_sandboxing_enabled: true,
            isolation_verification: true,
        }
    }
}

/// Threat model validation errors.
#[derive(Debug, Clone, PartialEq, Eq)]
pub enum ThreatModelError {
    /// Code re-parse verification failed.
    ReParseVerificationFailed(String),
    /// Macro tampering detected.
    TamperDetected(String),
    /// DSL sandbox escape attempt detected.
    SandboxEscapeDetected(String),
    /// Mutation detection uncertainty in strict mode.
    MutationUncertaintyDetected(String),
    /// Simulation isolation violation detected.
    IsolationViolationDetected(String),
    /// Custom threat.
    Custom(String),
}

/// The message of a threat model error.
pub open spec fn threat_error_text(e: ThreatModelError) -> Seq<char> {
    match e {
        ThreatModelError::ReParseVerificationFailed(m) => "re-parse verification failed: "@ + m@,
        ThreatModelError::TamperDetected(m) => "macro tampering detected: "@ + m@,
        ThreatModelError::SandboxEscapeDetected(m) => "DSL sandbox escape: "@ + m@,
        ThreatModelError::MutationUncertaintyDetected(m) => "mutation uncertainty in strict mode: "@
            + m@,
        ThreatModelError::IsolationViolationDetected(m) => "simulation isolation violation: "@
            + m@,
        ThreatModelError::Custom(m) => m@,
    }
}

impl ThreatModelError {
    /// The message of this error.
    pub fn to_string(&self) -> (r: String)
        ensures
            r@ == threat_error_text(*self),
    {
        let (prefix, m): (&str, &String) = match self {
            ThreatModelError::ReParseVerificationFailed(m) => ("re-parse verification failed: ", m),
            ThreatModelError::TamperDetected(m) => ("macro tampering detected: ", m),
            ThreatModelError::SandboxEscapeDetected(m) => ("DSL sandbox escape: ", m),
            ThreatModelError::MutationUncertaintyDetected(m) => (
                "mutation uncertainty in strict mode: ",
                m,
            ),
            ThreatModelError::IsolationViolationDetected(m) => (
                "simulation isolation violation: ",
                m,
            ),
            ThreatModelError::Custom(m) => ("", m),
        };
        proof {
            reveal_strlit("");
        }
        let mut out = string_from(prefix);
        push_str(&mut out, m.as_str());
        assert(out@ =~= threat_error_text(*self));
        out
    }
}

/// Result type for threat model validation.
pub type ThreatResult<T> = Result<T, ThreatModelError>;

/// The comment that marks an injected invariant check.
pub open spec fn check_marker(check: Seq<char>) -> Seq<char> {
    "// Invariant: "@ + check
}

/// The first check from index `i` on whose marker the code lacks.
pub open spec fn first_missing_check(code: Seq<char>, checks: Seq<Seq<char>>, i: int) -> Option<int>
    decreases checks.len() - i,
{
    if i < 0 || i >= checks.len() {
        None
    } else if !has_substring(code, check_marker(checks[i])) {
        Some(i)
    } else {
        first_missing_check(code, checks, i + 1)
    }
}

/// The patterns whose presence in generated code means an injection
/// escaped its scope, in the order they are looked for.
pub open spec fn dangerous_patterns() -> Seq<Seq<char>> {
    seq!["unsafe"@, "ext"@ + "ern"@, "use "@ + "std"@ + "::process"@, "std"@ + "::fs"@, "std"@ + "::net"@]
}

/// The first dangerous pattern from index `i` on that occurs in the code.
pub open spec fn first_dangerous(code: Seq<char>, i: int) -> Option<int>
    decreases dangerous_patterns().len() - i,
{
    if i < 0 || i >= dangerous_patterns().len() {
        None
    } else if has_substring(code, dangerous_patterns()[i]) {
        Some(i)
    } else {
        first_dangerous(code, i + 1)
    }
}

fn dangerous_pattern_list() -> (r: Vec<String>)
    ensures
        string_views(r@) == dangerous_patterns(),
{
    let mut v: Vec<String> = Vec::new();
    v.push(string_from("unsafe"));
    let mut e = string_from("ext");
    push_str(&mut e, "ern");
    v.push(e);
    let mut p = string_from("use ");
    push_str(&mut p, "std");
    push_str(&mut p, "::process");
    v.push(p);
    let mut f = string_from("std");
    push_str(&mut f, "::fs");
    v.push(f);
    let mut n = string_from("std");
    push_str(&mut n, "::net");
    v.push(n);
    assert(string_views(v@) =~= dangerous_patterns());
    v
}

/// Re-parse verification of generated code.
pub struct InjectionVerifier;

impl InjectionVerifier {
    /// Checks that the generated code carries the marker of every expected
    /// check; the error names the first one missing.
    pub fn verify_coverage(generated_code: &str, expected_checks: &[String]) -> (r: ThreatResult<
        (),
    >)
        ensures
            match r {
                Ok(_) => first_missing_check(generated_code@, string_views(expected_checks@), 0)
                    is None,
                Err(e) => exists|j: int|
                    first_missing_check(generated_code@, string_views(expected_checks@), 0)
                        == Some(j) && (e matches ThreatModelError::ReParseVerificationFailed(m)
                        && m@ == "invariant check not found in generated code: "@
                        + expected_checks@[j]@),
            },
    {
        let ghost views = string_views(expected_checks@);
        let mut i: usize = 0;
        while i < expected_checks.len()
            invariant
                i <= expected_checks.len(),
                views == string_views(expected_checks@),
                first_missing_check(generated_code@, views, 0) == first_missing_check(
                    generated_code@,
                    views,
                    i as int,
                ),
            decreases expected_checks.len() - i,
        {
            let check = &expected_checks[i];
            let mut marker = string_from("// Invariant: ");
            push_str(&mut marker, check.as_str());
            if !str_contains(generated_code, marker.as_str()) {
                let mut msg = string_from("invariant check not found in generated code: ");
                push_str(&mut msg, check.as_str());
                return Err(ThreatModelError::ReParseVerificationFailed(msg));
            }
            i = i + 1;
        }
        Ok(())
    }

    /// Checks that no dangerous pattern occurs in the generated code; the
    /// error names the first one found.
    pub fn verify_scope_containment(generated_code: &str) -> (r: ThreatResult<()>)
        ensures
            match r {
                Ok(_) => first_dangerous(generated_code@, 0) is None,
                Err(e) => exists|j: int|
                    first_dangerous(generated_code@, 0) == Some(j)
                        && (e matches ThreatModelError::ReParseVerificationFailed(m) && m@
                        == "dangerous pattern found in generated code: "@
                        + dangerous_patterns()[j]),
            },
    {
        let patterns = dangerous_pattern_list();
        let mut i: usize = 0;
        while i < patterns.len()
            invariant
                i <= patterns.len(),
                string_views(patterns@) == dangerous_patterns(),
                first_dangerous(generated_code@, 0) == first_dangerous(generated_code@, i as int),
            decreases patterns.len() - i,
        {
            assert(patterns@[i as int]@ == dangerous_patterns()[i as int]);
            if str_contains(generated_code, patterns[i].as_str()) {
                let mut msg = string_from("dangerous pattern found in generated code: ");
                push_str(&mut msg, patterns[i].as_str());
                return Err(ThreatModelError::ReParseVerificationFailed(msg));
            }
            i = i + 1;
        }
        Ok(())
    }
}

/// The writes that hashing the strings, in order, makes to a hasher: each
/// string's UTF-8 bytes, then the byte `0xff` that ends it.
pub open spec fn hash_writes(items: Seq<Seq<char>>) -> Seq<Seq<u8>>
    decreases items.len(),
{
    if items.len() == 0 {
        Seq::empty()
    } else {
        hash_writes(items.drop_last()).push(vstd::utf8::encode_utf8(items.last())).push(seq![0xffu8])
    }
}

/// The lowercase hexadecimal digit for `d < 16`.
pub open spec fn hex_char(d: nat) -> char {
    if d < 10 {
        crate::text::digit_char(d)
    } else if d == 10 {
        'a'
    } else if d == 11 {
        'b'
    } else if d == 12 {
        'c'
    } else if d == 13 {
        'd'
    } else if d == 14 {
        'e'
    } else {
        'f'
    }
}

/// The last `k` hexadecimal digits of `n`, zero-padded, most significant
/// first.
pub open spec fn hex_fixed(n: nat, k: nat) -> Seq<char>
    decreases k,
{
    if k == 0 {
        Seq::empty()
    } else {
        hex_fixed(n / 16, (k - 1) as nat).push(hex_char(n % 16))
    }
}

fn hex_digit(d: u64) -> (c: char)
    requires
        d < 16,
    ensures
        c == hex_char(d as nat),
{
    if d < 10 {
        crate::text::digit_of(d as u128)
    } else if d == 10 {
        'a'
    } else if d == 11 {
        'b'
    } else if d == 12 {
        'c'
    } else if d == 13 {
        'd'
    } else if d == 14 {
        'e'
    } else {
        'f'
    }
}

fn push_hex_fixed(out: &mut String, n: u64, k: u64)
    ensures
        final(out)@ == old(out)@ + hex_fixed(n as nat, k as nat),
    decreases k,
{
    if k > 0 {
        push_hex_fixed(out, n / 16, k - 1);
        push_char(out, hex_digit(n % 16));
    }
}

/// `format!("{:016x}", n)`: sixteen lowercase hexadecimal digits.
pub fn hex16(n: u64) -> (r: String)
    ensures
        r@ == hex_fixed(n as nat, 16),
{
    let mut s = String::new();
    push_hex_fixed(&mut s, n, 16);
    assert(s@ =~= hex_fixed(n as nat, 16));
    s
}

/// The hash of a set of checks: the digest of the checks in ascending
/// order, as sixteen hexadecimal digits.
pub open spec fn checks_hash(checks: Seq<Seq<char>>) -> Seq<char> {
    hex_fixed(
        <DefaultHasher as vstd::std_specs::hash::DefaultHasherAdditionalSpecFns>::spec_finish(
            hash_writes(checks.sort_by(text_order())),
        ) as nat,
        16,
    )
}

/// Detection of tampering with injected checks.
pub struct TamperDetector;

impl TamperDetector {
    /// The hash of the checks: computed over the checks sorted, so their
    /// order does not matter.
    pub fn compute_hash(checks: &[String]) -> (r: String)
        ensures
            r@ == checks_hash(string_views(checks@)),
    {
        let mut v: Vec<String> = Vec::new();
        let mut i: usize = 0;
        while i < checks.len()
            invariant
                i <= checks.len(),
                v@ == checks@.subrange(0, i as int),
            decreases checks.len() - i,
        {
            v.push(checks[i].clone());
            i = i + 1;
        }
        assert(v@ =~= checks@);
        let sorted = sort_strings(&v);
        let mut hasher = DefaultHasher::new();
        let mut j: usize = 0;
        let terminator: [u8; 1] = [0xffu8];
        assert(terminator@ =~= seq![0xffu8]);
        while j < sorted.len()
            invariant
                j <= sorted.len(),
                terminator@ == seq![0xffu8],
                hasher@ == hash_writes(string_views(sorted@).subrange(0, j as int)),
            decreases sorted.len() - j,
        {
            std::hash::Hasher::write(&mut hasher, sorted[j].as_str().as_bytes());
            std::hash::Hasher::write(&mut hasher, &terminator);
            proof {
                let sub = string_views(sorted@).subrange(0, j as int + 1);
                assert(sub.drop_last() =~= string_views(sorted@).subrange(0, j as int));
                assert(sub.last() == sorted@[j as int]@);
            }
            j = j + 1;
        }
        let digest = std::hash::Hasher::finish(&hasher);
        proof {
            let views = string_views(checks@);
            assert(string_views(sorted@).subrange(0, sorted@.len() as int) =~= string_views(
                sorted@,
            ));
            lemma_text_le_total();
            views.lemma_sort_by_ensures(text_order());
            vstd::seq_lib::lemma_sorted_unique(
                string_views(sorted@),
                views.sort_by(text_order()),
                text_order(),
            );
        }
        hex16(digest)
    }

    /// Checks that the generated code embeds the hash of the expected checks.
    pub fn verify_tampering(generated_code: &str, expected_checks: &[String]) -> (r: ThreatResult<
        (),
    >)
        ensures
            r is Ok <==> has_substring(
                generated_code@,
                "TRUENT_HASH: "@ + checks_hash(string_views(expected_checks@)),
            ),
            r matches Err(e) ==> e matches ThreatModelError::TamperDetected(m) && m@
                == "hash mismatch: generated code does not contain expected TRUENT_HASH"@,
    {
        let expected_hash = Self::compute_hash(expected_checks);
        let mut pattern = string_from("TRUENT_HASH: ");
        push_str(&mut pattern, expected_hash.as_str());
        if !str_contains(generated_code, pattern.as_str()) {
            return Err(
                ThreatModelError::TamperDetected(
                    string_from("hash mismatch: generated code does not contain expected TRUENT_HASH"),
                ),
            );
        }
        Ok(())
    }
}

/// The hash of checks does not depend on their order: checks that are a
/// permutation of each other have the same hash.
pub proof fn lemma_hash_order_invariant(a: Seq<Seq<char>>, b: Seq<Seq<char>>)
    requires
        a.to_multiset() == b.to_multiset(),
    ensures
        checks_hash(a) == checks_hash(b),
{
    lemma_text_le_total();
    a.lemma_sort_by_ensures(text_order());
    b.lemma_sort_by_ensures(text_order());
    vstd::seq_lib::lemma_sorted_unique(a.sort_by(text_order()), b.sort_by(text_order()), text_order());
}

/// The name prefixes an invariant expression may not use, compared with
/// the name lowercased.
pub open spec fn forbidden_prefixes() -> Seq<Seq<char>> {
    seq!["file_"@, "io_"@, "ext"@ + "ern_"@, "unsafe_"@]
}

/// The functions an invariant expression may call: purely computational.
pub open spec fn allowed_functions() -> Seq<Seq<char>> {
    seq![
        "sum"@,
        "len"@,
        "min"@,
        "max"@,
        "abs"@,
        "mod"@,
        "div"@,
        "add"@,
        "sub"@,
        "mul"@,
        "and"@,
        "or"@,
        "not"@,
    ]
}

/// The name, lowercased, begins with one of the prefixes.
pub open spec fn forbidden_name(name: Seq<char>, prefixes: Seq<Seq<char>>) -> bool {
    exists|i: int| 0 <= i < prefixes.len() && has_prefix(unicode_lowercase(name), prefixes[i])
}

/// The outcome of the sandbox check of `e`: the message of the first
/// violation in evaluation order, if any.
pub open spec fn sandbox_check(e: Expression, prefixes: Seq<Seq<char>>) -> Result<(), Seq<char>>
    decreases e, 0int,
{
    match e {
        Expression::Var(name) => if forbidden_name(name@, prefixes) {
            Err("forbidden variable name: "@ + name@)
        } else {
            Ok(())
        },
        Expression::LayerVar { layer, var } => if forbidden_name(layer@, prefixes)
            || forbidden_name(var@, prefixes) {
            Err("forbidden layer/variable name: "@ + layer@ + "::"@ + var@)
        } else {
            Ok(())
        },
        Expression::PhaseQualifiedVar { phase, layer, var } => if forbidden_name(phase@, prefixes)
            || forbidden_name(layer@, prefixes) || forbidden_name(var@, prefixes) {
            Err("forbidden phase/layer/variable name: "@ + phase@ + "::"@ + layer@ + "::"@ + var@)
        } else {
            Ok(())
        },
        Expression::FunctionCall { name, args } => if !allowed_functions().contains(name@) {
            Err("forbidden function call: "@ + name@)
        } else {
            items_sandbox(args@, 0, prefixes)
        },
        Expression::BinaryOp { left, op: _, right } => match sandbox_check(*left, prefixes) {
            Err(m) => Err(m),
            Ok(_) => sandbox_check(*right, prefixes),
        },
        Expression::Arithmetic { left, op: _, right } => match sandbox_check(*left, prefixes) {
            Err(m) => Err(m),
            Ok(_) => sandbox_check(*right, prefixes),
        },
        Expression::Logical { left, op: _, right } => match sandbox_check(*left, prefixes) {
            Err(m) => Err(m),
            Ok(_) => sandbox_check(*right, prefixes),
        },
        Expression::Not(inner) => sandbox_check(*inner, prefixes),
        Expression::Tuple(items) => items_sandbox(items@, 0, prefixes),
        Expression::PhaseConstraint { phase: _, constraint } => sandbox_check(*constraint, prefixes),
        Expression::CrossPhaseRelation { phase1: _, expr1, phase2: _, expr2, op: _ } => {
            match sandbox_check(*expr1, prefixes) {
                Err(m) => Err(m),
                Ok(_) => sandbox_check(*expr2, prefixes),
            }
        },
        Expression::Boolean(_) => Ok(()),
        Expression::Int(_) => Ok(()),
    }
}

/// The sandbox outcome of the items from index `i` on: the first violation.
pub open spec fn items_sandbox(items: Seq<Expression>, i: int, prefixes: Seq<Seq<char>>) -> Result<
    (),
    Seq<char>,
>
    decreases items, items.len() - i,
{
    if i < 0 || i >= items.len() {
        Ok(())
    } else {
        match sandbox_check(items[i], prefixes) {
            Err(m) => Err(m),
            Ok(_) => items_sandbox(items, i + 1, prefixes),
        }
    }
}

fn forbidden_prefix_list() -> (r: Vec<String>)
    ensures
        string_views(r@) == forbidden_prefixes(),
{
    let mut v: Vec<String> = Vec::new();
    v.push(string_from("file_"));
    v.push(string_from("io_"));
    let mut e = string_from("ext");
    push_str(&mut e, "ern_");
    v.push(e);
    v.push(string_from("unsafe_"));
    assert(string_views(v@) =~= forbidden_prefixes());
    v
}

fn allowed_function_list() -> (r: Vec<String>)
    ensures
        string_views(r@) == allowed_functions(),
{
    let mut v: Vec<String> = Vec::new();
    v.push(string_from("sum"));
    v.push(string_from("len"));
    v.push(string_from("min"));
    v.push(string_from("max"));
    v.push(string_from("abs"));
    v.push(string_from("mod"));
    v.push(string_from("div"));
    v.push(string_from("add"));
    v.push(string_from("sub"));
    v.push(string_from("mul"));
    v.push(string_from("and"));
    v.push(string_from("or"));
    v.push(string_from("not"));
    assert(string_views(v@) =~= allowed_functions());
    v
}

/// Whether the name, lowercased, begins with one of the prefixes.
fn has_forbidden_prefix(name: &str, prefixes: &Vec<String>) -> (r: bool)
    ensures
        r == forbidden_name(name@, string_views(prefixes@)),
{
    let lower = to_lowercase(name);
    let mut i: usize = 0;
    while i < prefixes.len()
        invariant
            i <= prefixes.len(),
            lower@ == unicode_lowercase(name@),
            forall|j: int|
                0 <= j < i ==> !has_prefix(lower@, #[trigger] string_views(prefixes@)[j]),
        decreases prefixes.len() - i,
    {
        if str_starts_with(lower.as_str(), prefixes[i].as_str()) {
            assert(has_prefix(lower@, string_views(prefixes@)[i as int]));
            return true;
        }
        i = i + 1;
    }
    false
}

/// Whether `name` is in `list`.
fn listed(name: &str, list: &Vec<String>) -> (r: bool)
    ensures
        r == string_views(list@).contains(name@),
{
    let mut i: usize = 0;
    while i < list.len()
        invariant
            i <= list.len(),
            forall|j: int| 0 <= j < i ==> #[trigger] string_views(list@)[j] != name@,
        decreases list.len() - i,
    {
        if str_eq(list[i].as_str(), name) {
            assert(string_views(list@)[i as int] == name@);
            return true;
        }
        i = i + 1;
    }
    false
}

/// Sandboxing of invariant expressions: no file or I/O names, no external
/// code, only computational functions.
pub struct DSLSandbox;

impl DSLSandbox {
    /// Checks an expression for sandbox violations; the error reports the
    /// first one in evaluation order.
    pub fn validate_expression(expr: &Expression) -> (r: ThreatResult<()>)
        ensures
            match r {
                Ok(_) => sandbox_check(*expr, forbidden_prefixes()) is Ok,
                Err(e) => e matches ThreatModelError::SandboxEscapeDetected(m) && sandbox_check(
                    *expr,
                    forbidden_prefixes(),
                ) == Err::<(), Seq<char>>(m@),
            },
    {
        let prefixes = forbidden_prefix_list();
        let allowed = allowed_function_list();
        Self::check_expression_recursive(expr, &prefixes, &allowed)
    }

    fn check_expression_recursive(
        expr: &Expression,
        forbidden_prefixes: &Vec<String>,
        allowed: &Vec<String>,
    ) -> (r: ThreatResult<()>)
        requires
            string_views(allowed@) == allowed_functions(),
        ensures
            match r {
                Ok(_) => sandbox_check(*expr, string_views(forbidden_prefixes@)) is Ok,
                Err(e) => e matches ThreatModelError::SandboxEscapeDetected(m) && sandbox_check(
                    *expr,
                    string_views(forbidden_prefixes@),
                ) == Err::<(), Seq<char>>(m@),
            },
        decreases expr, 1int,
    {
        match expr {
            Expression::Var(name) => {
                if has_forbidden_prefix(name.as_str(), forbidden_prefixes) {
                    let mut msg = string_from("forbidden variable name: ");
                    push_str(&mut msg, name.as_str());
                    return Err(ThreatModelError::SandboxEscapeDetected(msg));
                }
                Ok(())
            },
            Expression::LayerVar { layer, var } => {
                if has_forbidden_prefix(layer.as_str(), forbidden_prefixes) || has_forbidden_prefix(
                    var.as_str(),
                    forbidden_prefixes,
                ) {
                    let mut msg = string_from("forbidden layer/variable name: ");
                    push_str(&mut msg, layer.as_str());
                    push_str(&mut msg, "::");
                    push_str(&mut msg, var.as_str());
                    assert(msg@ =~= "forbidden layer/variable name: "@ + layer@ + "::"@ + var@);
                    return Err(ThreatModelError::SandboxEscapeDetected(msg));
                }
                Ok(())
            },
            Expression::PhaseQualifiedVar { phase, layer, var } => {
                if has_forbidden_prefix(phase.as_str(), forbidden_prefixes) || has_forbidden_prefix(
                    layer.as_str(),
                    forbidden_prefixes,
                ) || has_forbidden_prefix(var.as_str(), forbidden_prefixes) {
                    let mut msg = string_from("forbidden phase/layer/variable name: ");
                    push_str(&mut msg, phase.as_str());
                    push_str(&mut msg, "::");
                    push_str(&mut msg, layer.as_str());
                    push_str(&mut msg, "::");
                    push_str(&mut msg, var.as_str());
                    assert(msg@ =~= "forbidden phase/layer/variable name: "@ + phase@ + "::"@
                        + layer@ + "::"@ + var@);
                    return Err(ThreatModelError::SandboxEscapeDetected(msg));
                }
                Ok(())
            },
            Expression::FunctionCall { name, args: _ } => {
                if !listed(name.as_str(), allowed) {
                    let mut msg = string_from("forbidden function call: ");
                    push_str(&mut msg, name.as_str());
                    return Err(ThreatModelError::SandboxEscapeDetected(msg));
                }
                Self::check_items(expr, forbidden_prefixes, allowed)
            },
            Expression::BinaryOp { left, op: _, right } => {
                Self::check_expression_recursive(left, forbidden_prefixes, allowed)?;
                Self::check_expression_recursive(right, forbidden_prefixes, allowed)?;
                Ok(())
            },
            Expression::Arithmetic { left, op: _, right } => {
                Self::check_expression_recursive(left, forbidden_prefixes, allowed)?;
                Self::check_expression_recursive(right, forbidden_prefixes, allowed)?;
                Ok(())
            },
            Expression::Logical { left, op: _, right } => {
                Self::check_expression_recursive(left, forbidden_prefixes, allowed)?;
                Self::check_expression_recursive(right, forbidden_prefixes, allowed)?;
                Ok(())
            },
            Expression::Not(inner) => {
                Self::check_expression_recursive(inner, forbidden_prefixes, allowed)?;
                Ok(())
            },
            Expression::Tuple(_) => Self::check_items(expr, forbidden_prefixes, allowed),
            Expression::PhaseConstraint { phase: _, constraint } => {
                Self::check_expression_recursive(constraint, forbidden_prefixes, allowed)
            },
            Expression::CrossPhaseRelation { phase1: _, expr1, phase2: _, expr2, op: _ } => {
                Self::check_expression_recursive(expr1, forbidden_prefixes, allowed)?;
                Self::check_expression_recursive(expr2, forbidden_prefixes, allowed)?;
                Ok(())
            },
            Expression::Boolean(_) => Ok(()),
            Expression::Int(_) => Ok(()),
        }
    }

    /// The sandbox check of the arguments of a call or the items of a tuple.
    fn check_items(
        expr: &Expression,
        forbidden_prefixes: &Vec<String>,
        allowed: &Vec<String>,
    ) -> (r: ThreatResult<()>)
        requires
            string_views(allowed@) == allowed_functions(),
            expr is Tuple || (expr matches Expression::FunctionCall { name, .. }
                && allowed_functions().contains(name@)),
        ensures
            match r {
                Ok(_) => sandbox_check(*expr, string_views(forbidden_prefixes@)) is Ok,
                Err(e) => e matches ThreatModelError::SandboxEscapeDetected(m) && sandbox_check(
                    *expr,
                    string_views(forbidden_prefixes@),
                ) == Err::<(), Seq<char>>(m@),
            },
        decreases expr, 0int,
    {
        let items = match expr {
            Expression::FunctionCall { name: _, args } => args,
            Expression::Tuple(items) => items,
            _ => {
                return Ok(());
            },
        };
        let ghost pv = string_views(forbidden_prefixes@);
        let mut i: usize = 0;
        while i < items.len()
            invariant
                i <= items.len(),
                string_views(allowed@) == allowed_functions(),
                pv == string_views(forbidden_prefixes@),
                sandbox_check(*expr, pv) == items_sandbox(items@, i as int, pv),
                expr matches Expression::Tuple(t) ==> t == *items,
                expr matches Expression::FunctionCall { args, .. } ==> args == *items,
                expr is Tuple || expr is FunctionCall,
            decreases items.len() - i,
        {
            proof {
                broadcast use vstd::std_specs::vec::axiom_vec_index_decreases;

                assert(decreases_to!(*expr => items@[i as int]));
            }
            Self::check_expression_recursive(&items[i], forbidden_prefixes, allowed)?;
            i = i + 1;
        }
        Ok(())
    }
}

/// The message for uncertain mutations in strict mode.
pub open spec fn uncertainty_message(warnings: Seq<Seq<char>>) -> Seq<char> {
    "strict mode detected "@ + dec_digits(warnings.len()) + " uncertain mutations: "@ + joined(
        warnings,
        ", "@,
    )
}

/// Strict mode: abort when mutation analysis is uncertain.
pub struct StrictModeAnalyzer {
    enabled: bool,
}

impl StrictModeAnalyzer {
    /// Whether strict mode is on.
    pub closed spec fn is_enabled(&self) -> bool {
        self.enabled
    }

    /// A strict mode analyzer, on or off.
    pub fn new(enabled: bool) -> (r: Self)
        ensures
            r.is_enabled() == enabled,
    {
        StrictModeAnalyzer { enabled }
    }

    /// In strict mode, rejects an analysis that reported any uncertainty;
    /// otherwise accepts it.
    pub fn verify_mutation_coverage(
        &self,
        analyzed_mutations: &[String],
        uncertainty_warnings: &[String],
    ) -> (r: ThreatResult<()>)
        ensures
            r is Ok <==> !self.is_enabled() || uncertainty_warnings@.len() == 0,
            r matches Err(e) ==> e matches ThreatModelError::MutationUncertaintyDetected(m) && m@
                == uncertainty_message(string_views(uncertainty_warnings@)),
    {
        if !self.enabled {
            return Ok(());
        }
        if uncertainty_warnings.len() != 0 {
            let mut msg = string_from("strict mode detected ");
            push_u128(&mut msg, uncertainty_warnings.len() as u128);
            push_str(&mut msg, " uncertain mutations: ");
            let joined_text = join_strings(uncertainty_warnings, ", ");
            push_str(&mut msg, joined_text.as_str());
            assert(msg@ =~= uncertainty_message(string_views(uncertainty_warnings@)));
            return Err(ThreatModelError::MutationUncertaintyDetected(msg));
        }
        Ok(())
    }
}

/// The type string mentions one of the allowed types.
pub open spec fn type_allowed(ty: Seq<char>, allowed: Seq<Seq<char>>) -> bool {
    exists|i: int| 0 <= i < allowed.len() && has_substring(ty, allowed[i])
}

/// The first variable, in name order from entry `i` on, whose type is not
/// allowed.
pub open spec fn first_disallowed(
    vars: Seq<(Seq<char>, String)>,
    allowed: Seq<Seq<char>>,
    i: int,
) -> Option<int>
    decreases vars.len() - i,
{
    if i < 0 || i >= vars.len() {
        None
    } else if !type_allowed(vars[i].1@, allowed) {
        Some(i)
    } else {
        first_disallowed(vars, allowed, i + 1)
    }
}

/// The views of a list of string slices.
pub open spec fn str_views(v: Seq<&str>) -> Seq<Seq<char>> {
    v.map_values(|s: &str| s@)
}

/// Isolation of simulations.
pub struct SimulationIsolation;

impl SimulationIsolation {
    /// Checks that every simulation variable has a type that mentions an
    /// allowed type; the error names the first variable, in name order,
    /// that does not.
    pub fn verify_isolation(context_vars: &StrMap<String>, allowed_types: &[&str]) -> (r:
        ThreatResult<()>)
        ensures
            match r {
                Ok(_) => first_disallowed(context_vars.pairs(), str_views(allowed_types@), 0)
                    is None,
                Err(e) => exists|j: int|
                    first_disallowed(context_vars.pairs(), str_views(allowed_types@), 0) == Some(j)
                        && (e matches ThreatModelError::IsolationViolationDetected(m) && m@
                        == "variable '"@ + context_vars.pairs()[j].0 + "' has disallowed type '"@
                        + context_vars.pairs()[j].1@ + "' in simulation context"@),
            },
    {
        let n = context_vars.len();
        let ghost allowed = str_views(allowed_types@);
        let mut i: usize = 0;
        while i < n
            invariant
                i <= n,
                n == context_vars.pairs().len(),
                allowed == str_views(allowed_types@),
                first_disallowed(context_vars.pairs(), allowed, 0) == first_disallowed(
                    context_vars.pairs(),
                    allowed,
                    i as int,
                ),
            decreases n - i,
        {
            let name = context_vars.key_at(i);
            let type_str = context_vars.value_at(i);
            let mut is_allowed = false;
            let mut k: usize = 0;
            while k < allowed_types.len()
                invariant
                    k <= allowed_types.len(),
                    allowed == str_views(allowed_types@),
                    is_allowed == exists|j: int|
                        0 <= j < k && has_substring(type_str@, #[trigger] allowed[j]),
                decreases allowed_types.len() - k,
            {
                assert(allowed[k as int] == allowed_types@[k as int]@);
                let found = str_contains(type_str.as_str(), allowed_types[k]);
                if found {
                    is_allowed = true;
                }
                proof {
                    if found {
                        assert(0 <= k < k + 1 && has_substring(type_str@, allowed[k as int]));
                    }
                    if exists|j: int| 0 <= j < k + 1 && has_substring(type_str@, #[trigger] allowed[j]) {
                        let j = choose|j: int| 0 <= j < k + 1 && has_substring(type_str@, #[trigger] allowed[j]);
                        if j < k {
                            assert(0 <= j < k && has_substring(type_str@, allowed[j]));
                        }
                    }
                }
                k = k + 1;
            }
            if !is_allowed {
                let mut msg = string_from("variable '");
                push_str(&mut msg, name.as_str());
                push_str(&mut msg, "' has disallowed type '");
                push_str(&mut msg, type_str.as_str());
                push_str(&mut msg, "' in simulation context");
                assert(msg@ =~= "variable '"@ + context_vars.pairs()[i as int].0
                    + "' has disallowed type '"@ + context_vars.pairs()[i as int].1@
                    + "' in simulation context"@);
                return Err(ThreatModelError::IsolationViolationDetected(msg));
            }
            i = i + 1;
        }
        Ok(())
    }
}

} // verus!
