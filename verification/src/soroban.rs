//! The Soroban (Stellar) chain analyzer: the detectors that read the facts
//! extracted from each `pub fn` of a `#[contractimpl]` block, and the
//! chain-agnostic semantic model those facts feed.
use vstd::prelude::*;
use quote::ToTokens;
use syn::{parse_file, Attribute};
use syn::ImplItem::Fn as ImplFn;
use syn::Item::{Impl as ItemImpl, Struct as ItemStruct};
use crate::soroban::ItemFacts::{Impl, Other, Struct};
use crate::error::InvarError;
use crate::ir::ast::contains_string;
use crate::strmap::string_views;
use crate::finding::{
    Evidence, Finding, Severity, dedup_by_key, dedup_findings, sort_by_severity, sort_findings,
};
use crate::ir::rules::{find_unauthorized_privileged_mutations, reports_unguarded, unguarded};
use crate::model::{FunctionModel, ProgramModel, StateVar};
use crate::strmap::StrSet;
use crate::ir::semantic::{
    AuthCheckKind, AuthorizationCheck, MutationKind, PrivilegedMutation, SemanticModel,
};
use crate::text::{
    chars_of, dec_digits, find_from, first_occurrence_from, has_prefix, has_substring,
    lemma_first_occurrence, matches_at, occurs_at, push_str, push_u128, replace_all, replaced,
    str_contains, str_eq, str_starts_with, string_from, to_lowercase, unicode_lowercase,
};

verus! {

/// Analyzer for Soroban contracts.
pub struct SorobanAnalyzer;

impl SorobanAnalyzer {
    /// The chain this analyzer handles.
    pub fn chain(&self) -> (r: &'static str)
        ensures
            r@ == "soroban"@,
    {
        "soroban"
    }
}

/// The facts about one `pub fn` of a `#[contractimpl]` block that the
/// detectors read.
#[derive(Debug, Clone)]
pub struct ContractFunction {
    /// Function name.
    pub name: String,
    /// 1-indexed line of its `fn`.
    pub line: usize,
    /// Its body calls `require_auth`.
    pub has_require_auth: bool,
    /// It is an initializer.
    pub is_initialize: bool,
    /// An initializer checks storage before its first write.
    pub has_init_guard: bool,
    /// It calls `update_current_contract_wasm`.
    pub upgrades_wasm: bool,
    /// It does raw `+`/`-`/`*` arithmetic and no checked arithmetic.
    pub uses_unchecked_arithmetic: bool,
    /// How many `.unwrap(`/`.expect(` calls it makes.
    pub unwrap_count: usize,
    /// It writes or removes persistent storage.
    pub writes_persistent_storage: bool,
    /// It extends a TTL.
    pub extends_ttl: bool,
    /// It writes durable-looking state to temporary storage.
    pub writes_temporary_storage_of_sensitive_state: bool,
    /// It writes storage after a cross-contract call.
    pub external_call_before_storage_write: bool,
    /// It reads a single spot price with no averaging.
    pub uses_single_source_price_oracle: bool,
}

/// The Soroban checks, in the order they run.
#[derive(Debug, Clone, Copy, PartialEq, Eq, Structural)]
pub enum SorobanCheck {
    /// A privileged function with no `require_auth`.
    MissingRequireAuth,
    /// A contract upgrade with no `require_auth`.
    UnprotectedUpgrade,
    /// An initializer with no guard against a second call.
    Reinitialization,
    /// Raw arithmetic with no checked arithmetic.
    UncheckedArithmetic,
    /// Persistent storage written with no TTL extension.
    StorageTtlNotExtended,
    /// Durable-looking state written to temporary storage.
    TemporaryStorageCriticalState,
    /// A storage write after a cross-contract call.
    ReentrancyExternalCall,
    /// A single spot price read with no averaging.
    ThinLiquidityOraclePrice,
    /// `unwrap()`/`expect()` calls.
    UnhandledPanic,
}

/// A lower-cased function name that names a privileged action.
pub open spec fn sensitive_name(lower: Seq<char>) -> bool {
    ||| has_substring(lower, "withdraw"@)
    ||| has_substring(lower, "transfer"@)
    ||| has_substring(lower, "pay"@)
    ||| has_substring(lower, "mint"@)
    ||| has_substring(lower, "burn"@)
    ||| has_substring(lower, "set_admin"@)
    ||| has_substring(lower, "set_owner"@)
    ||| has_substring(lower, "remove"@)
    ||| has_substring(lower, "upgrade"@)
}

/// Whether check `c` flags `f`.
pub open spec fn flags(c: SorobanCheck, f: ContractFunction) -> bool {
    match c {
        SorobanCheck::MissingRequireAuth => !f.has_require_auth && sensitive_name(
            unicode_lowercase(f.name@),
        ),
        SorobanCheck::UnprotectedUpgrade => f.upgrades_wasm && !f.has_require_auth,
        SorobanCheck::Reinitialization => f.is_initialize && !f.has_init_guard,
        SorobanCheck::UncheckedArithmetic => f.uses_unchecked_arithmetic,
        SorobanCheck::StorageTtlNotExtended => f.writes_persistent_storage && !f.extends_ttl,
        SorobanCheck::TemporaryStorageCriticalState => f.writes_temporary_storage_of_sensitive_state,
        SorobanCheck::ReentrancyExternalCall => f.external_call_before_storage_write,
        SorobanCheck::ThinLiquidityOraclePrice => f.uses_single_source_price_oracle,
        SorobanCheck::UnhandledPanic => f.unwrap_count > 0,
    }
}

/// The invariant ID a check reports under.
pub open spec fn check_id(c: SorobanCheck) -> Seq<char> {
    match c {
        SorobanCheck::MissingRequireAuth => "sor_missing_require_auth"@,
        SorobanCheck::UnprotectedUpgrade => "sor_unprotected_upgrade"@,
        SorobanCheck::Reinitialization => "sor_reinitialization"@,
        SorobanCheck::UncheckedArithmetic => "sor_unchecked_arithmetic"@,
        SorobanCheck::StorageTtlNotExtended => "sor_storage_ttl_not_extended"@,
        SorobanCheck::TemporaryStorageCriticalState => "sor_temporary_storage_critical_state"@,
        SorobanCheck::ReentrancyExternalCall => "sor_reentrancy_external_call"@,
        SorobanCheck::ThinLiquidityOraclePrice => "sor_thin_liquidity_oracle_price"@,
        SorobanCheck::UnhandledPanic => "sor_unhandled_panic"@,
    }
}

/// The severity a check reports with.
pub open spec fn check_severity(c: SorobanCheck) -> Severity {
    match c {
        SorobanCheck::MissingRequireAuth => Severity::Critical,
        SorobanCheck::UnprotectedUpgrade => Severity::Critical,
        SorobanCheck::Reinitialization => Severity::High,
        SorobanCheck::UncheckedArithmetic => Severity::High,
        SorobanCheck::StorageTtlNotExtended => Severity::Medium,
        SorobanCheck::TemporaryStorageCriticalState => Severity::Medium,
        SorobanCheck::ReentrancyExternalCall => Severity::High,
        SorobanCheck::ThinLiquidityOraclePrice => Severity::High,
        SorobanCheck::UnhandledPanic => Severity::Low,
    }
}

/// The message a check reports for `f`.
pub open spec fn check_message(c: SorobanCheck, f: ContractFunction) -> Seq<char> {
    match c {
        SorobanCheck::MissingRequireAuth => "Function '"@ + f.name@
            + "' performs a privileged action with no require_auth() call reaching it"@,
        SorobanCheck::UnprotectedUpgrade => "Function '"@ + f.name@
            + "' upgrades the contract's WASM with no require_auth() call guarding it"@,
        SorobanCheck::Reinitialization => "Initializer '"@ + f.name@
            + "' has no storage check guarding against being called more than once"@,
        SorobanCheck::UncheckedArithmetic => "Function '"@ + f.name@
            + "' performs raw arithmetic with no checked_add/checked_sub/checked_mul/checked_div call in the same function; Rust release builds do not trap on overflow by default"@,
        SorobanCheck::StorageTtlNotExtended => "Function '"@ + f.name@
            + "' writes persistent storage but never extends its TTL, risking archival/expiry of this state"@,
        SorobanCheck::TemporaryStorageCriticalState => "Function '"@ + f.name@
            + "' writes state that looks durable (balance/admin/owner/supply/price) to temporary() storage, which does not survive"@,
        SorobanCheck::ReentrancyExternalCall => "Function '"@ + f.name@
            + "' writes storage after a cross-contract call, violating checks-effects-interactions and risking reentrancy"@,
        SorobanCheck::ThinLiquidityOraclePrice => "Function '"@ + f.name@
            + "' reads a price from a single spot-price call with no TWAP/multi-source corroboration anywhere in the function \u{2014} a thin-liquidity venue's price can be pumped by a single large order, the exact pattern behind YieldBlox ($10.2M, Feb 2026, Stellar/Soroban)"@,
        SorobanCheck::UnhandledPanic => "Function '"@ + f.name@ + "' calls unwrap()/expect() "@
            + dec_digits(f.unwrap_count as nat)
            + " time(s); prefer returning a #[contracterror] Result over aborting the invocation"@,
    }
}

/// `r` is the finding check `c` reports for `f` in `file`.
pub open spec fn reports_check(r: Finding, c: SorobanCheck, f: ContractFunction, file: Seq<char>) -> bool {
    &&& r.invariant_id@ == check_id(c)
    &&& r.severity == check_severity(c)
    &&& r.file@ == file
    &&& r.line == f.line
    &&& r.col == 0
    &&& r.message@ == check_message(c, f)
    &&& r.snippet@ == f.name@
    &&& r.source_fragment is None
    &&& r.transaction_hash is None
    &&& r.evidence == Evidence::Lead
    &&& r.metadata@.dom() == set!["chain"@]
    &&& r.metadata@["chain"@]@ == "soroban"@
}

/// The functions check `c` flags, in order.
pub open spec fn flagged(c: SorobanCheck, fns: Seq<ContractFunction>) -> Seq<ContractFunction>
    decreases fns.len(),
{
    if fns.len() == 0 {
        Seq::empty()
    } else {
        flagged(c, fns.drop_last()) + (if flags(c, fns.last()) {
            seq![fns.last()]
        } else {
            Seq::empty()
        })
    }
}

/// `out` is what check `c` reports over `fns` in `file`: one finding for
/// each function it flags, in order.
pub open spec fn check_output(
    c: SorobanCheck,
    fns: Seq<ContractFunction>,
    file: Seq<char>,
    out: Seq<Finding>,
) -> bool {
    &&& out.len() == flagged(c, fns).len()
    &&& forall|k: int| 0 <= k < out.len() ==> reports_check(#[trigger] out[k], c, flagged(c, fns)[k], file)
}

fn names_sensitive(lower: &str) -> (r: bool)
    ensures
        r == sensitive_name(lower@),
{
    str_contains(lower, "withdraw") || str_contains(lower, "transfer") || str_contains(lower, "pay")
        || str_contains(lower, "mint") || str_contains(lower, "burn") || str_contains(
        lower,
        "set_admin",
    ) || str_contains(lower, "set_owner") || str_contains(lower, "remove") || str_contains(
        lower,
        "upgrade",
    )
}

fn flags_exec(c: SorobanCheck, f: &ContractFunction) -> (r: bool)
    ensures
        r == flags(c, *f),
{
    match c {
        SorobanCheck::MissingRequireAuth => {
            if f.has_require_auth {
                false
            } else {
                let lower = to_lowercase(f.name.as_str());
                names_sensitive(lower.as_str())
            }
        },
        SorobanCheck::UnprotectedUpgrade => f.upgrades_wasm && !f.has_require_auth,
        SorobanCheck::Reinitialization => f.is_initialize && !f.has_init_guard,
        SorobanCheck::UncheckedArithmetic => f.uses_unchecked_arithmetic,
        SorobanCheck::StorageTtlNotExtended => f.writes_persistent_storage && !f.extends_ttl,
        SorobanCheck::TemporaryStorageCriticalState => f.writes_temporary_storage_of_sensitive_state,
        SorobanCheck::ReentrancyExternalCall => f.external_call_before_storage_write,
        SorobanCheck::ThinLiquidityOraclePrice => f.uses_single_source_price_oracle,
        SorobanCheck::UnhandledPanic => f.unwrap_count > 0,
    }
}

fn message_for(c: SorobanCheck, f: &ContractFunction) -> (r: String)
    ensures
        r@ == check_message(c, *f),
{
    let mut m = match c {
        SorobanCheck::Reinitialization => string_from("Initializer '"),
        _ => string_from("Function '"),
    };
    push_str(&mut m, f.name.as_str());
    match c {
        SorobanCheck::MissingRequireAuth => push_str(
            &mut m,
            "' performs a privileged action with no require_auth() call reaching it",
        ),
        SorobanCheck::UnprotectedUpgrade => push_str(
            &mut m,
            "' upgrades the contract's WASM with no require_auth() call guarding it",
        ),
        SorobanCheck::Reinitialization => push_str(
            &mut m,
            "' has no storage check guarding against being called more than once",
        ),
        SorobanCheck::UncheckedArithmetic => push_str(
            &mut m,
            "' performs raw arithmetic with no checked_add/checked_sub/checked_mul/checked_div call in the same function; Rust release builds do not trap on overflow by default",
        ),
        SorobanCheck::StorageTtlNotExtended => push_str(
            &mut m,
            "' writes persistent storage but never extends its TTL, risking archival/expiry of this state",
        ),
        SorobanCheck::TemporaryStorageCriticalState => push_str(
            &mut m,
            "' writes state that looks durable (balance/admin/owner/supply/price) to temporary() storage, which does not survive",
        ),
        SorobanCheck::ReentrancyExternalCall => push_str(
            &mut m,
            "' writes storage after a cross-contract call, violating checks-effects-interactions and risking reentrancy",
        ),
        SorobanCheck::ThinLiquidityOraclePrice => push_str(
            &mut m,
            "' reads a price from a single spot-price call with no TWAP/multi-source corroboration anywhere in the function \u{2014} a thin-liquidity venue's price can be pumped by a single large order, the exact pattern behind YieldBlox ($10.2M, Feb 2026, Stellar/Soroban)",
        ),
        SorobanCheck::UnhandledPanic => {
            push_str(&mut m, "' calls unwrap()/expect() ");
            push_u128(&mut m, f.unwrap_count as u128);
            push_str(
                &mut m,
                " time(s); prefer returning a #[contracterror] Result over aborting the invocation",
            );
        },
    }
    m
}

fn id_for(c: SorobanCheck) -> (r: String)
    ensures
        r@ == check_id(c),
{
    match c {
        SorobanCheck::MissingRequireAuth => string_from("sor_missing_require_auth"),
        SorobanCheck::UnprotectedUpgrade => string_from("sor_unprotected_upgrade"),
        SorobanCheck::Reinitialization => string_from("sor_reinitialization"),
        SorobanCheck::UncheckedArithmetic => string_from("sor_unchecked_arithmetic"),
        SorobanCheck::StorageTtlNotExtended => string_from("sor_storage_ttl_not_extended"),
        SorobanCheck::TemporaryStorageCriticalState => string_from(
            "sor_temporary_storage_critical_state",
        ),
        SorobanCheck::ReentrancyExternalCall => string_from("sor_reentrancy_external_call"),
        SorobanCheck::ThinLiquidityOraclePrice => string_from("sor_thin_liquidity_oracle_price"),
        SorobanCheck::UnhandledPanic => string_from("sor_unhandled_panic"),
    }
}

fn severity_for(c: SorobanCheck) -> (r: Severity)
    ensures
        r == check_severity(c),
{
    match c {
        SorobanCheck::MissingRequireAuth => Severity::Critical,
        SorobanCheck::UnprotectedUpgrade => Severity::Critical,
        SorobanCheck::Reinitialization => Severity::High,
        SorobanCheck::UncheckedArithmetic => Severity::High,
        SorobanCheck::StorageTtlNotExtended => Severity::Medium,
        SorobanCheck::TemporaryStorageCriticalState => Severity::Medium,
        SorobanCheck::ReentrancyExternalCall => Severity::High,
        SorobanCheck::ThinLiquidityOraclePrice => Severity::High,
        SorobanCheck::UnhandledPanic => Severity::Low,
    }
}

fn report(c: SorobanCheck, f: &ContractFunction, file_path: &str) -> (r: Finding)
    ensures
        reports_check(r, c, *f, file_path@),
{
    let finding = Finding::new(
        id_for(c),
        severity_for(c),
        string_from(file_path),
        f.line,
        0,
        message_for(c, f),
        f.name.clone(),
    );
    let finding = finding.with_metadata(string_from("chain"), string_from("soroban"));
    assert(finding.metadata@.dom() =~= set!["chain"@]);
    finding
}

/// Runs one check over every function, in order.
fn run_check(c: SorobanCheck, functions: &[ContractFunction], file_path: &str) -> (r: Vec<Finding>)
    ensures
        check_output(c, functions@, file_path@, r@),
{
    let mut out: Vec<Finding> = Vec::new();
    let mut i: usize = 0;
    assert(functions@.subrange(0, 0) =~= Seq::<ContractFunction>::empty());
    while i < functions.len()
        invariant
            i <= functions@.len(),
            check_output(c, functions@.subrange(0, i as int), file_path@, out@),
        decreases functions.len() - i,
    {
        let ghost pre = functions@.subrange(0, i as int);
        let ghost next = functions@.subrange(0, i as int + 1);
        proof {
            assert(next.drop_last() =~= pre);
            assert(next.last() == functions@[i as int]);
        }
        if flags_exec(c, &functions[i]) {
            let f = report(c, &functions[i], file_path);
            out.push(f);
            assert(flagged(c, next) =~= flagged(c, pre).push(functions@[i as int]));
        } else {
            assert(flagged(c, next) =~= flagged(c, pre));
        }
        i = i + 1;
    }
    assert(functions@.subrange(0, functions@.len() as int) =~= functions@);
    out
}

/// Privileged functions (withdraw, transfer, pay, mint, burn, set_admin,
/// set_owner, remove, upgrade) with no `require_auth` call.
pub fn detect_missing_require_auth(functions: &[ContractFunction], file_path: &str) -> (r: Vec<
    Finding,
>)
    ensures
        check_output(SorobanCheck::MissingRequireAuth, functions@, file_path@, r@),
{
    run_check(SorobanCheck::MissingRequireAuth, functions, file_path)
}

/// Contract upgrades with no `require_auth` guarding them.
pub fn detect_unprotected_upgrade(functions: &[ContractFunction], file_path: &str) -> (r: Vec<
    Finding,
>)
    ensures
        check_output(SorobanCheck::UnprotectedUpgrade, functions@, file_path@, r@),
{
    run_check(SorobanCheck::UnprotectedUpgrade, functions, file_path)
}

/// Initializers with no guard against being called more than once.
pub fn detect_reinitialization(functions: &[ContractFunction], file_path: &str) -> (r: Vec<
    Finding,
>)
    ensures
        check_output(SorobanCheck::Reinitialization, functions@, file_path@, r@),
{
    run_check(SorobanCheck::Reinitialization, functions, file_path)
}

/// Raw arithmetic with no checked arithmetic in the same function: release
/// builds do not trap on overflow.
pub fn detect_unchecked_arithmetic(functions: &[ContractFunction], file_path: &str) -> (r: Vec<
    Finding,
>)
    ensures
        check_output(SorobanCheck::UncheckedArithmetic, functions@, file_path@, r@),
{
    run_check(SorobanCheck::UncheckedArithmetic, functions, file_path)
}

/// Persistent storage writes with no TTL extension.
pub fn detect_storage_ttl_not_extended(functions: &[ContractFunction], file_path: &str) -> (r: Vec<
    Finding,
>)
    ensures
        check_output(SorobanCheck::StorageTtlNotExtended, functions@, file_path@, r@),
{
    run_check(SorobanCheck::StorageTtlNotExtended, functions, file_path)
}

/// Durable-looking state written to temporary storage.
pub fn detect_temporary_storage_critical_state(
    functions: &[ContractFunction],
    file_path: &str,
) -> (r: Vec<Finding>)
    ensures
        check_output(SorobanCheck::TemporaryStorageCriticalState, functions@, file_path@, r@),
{
    run_check(SorobanCheck::TemporaryStorageCriticalState, functions, file_path)
}

/// A storage write after a cross-contract call.
pub fn detect_reentrancy_external_call(functions: &[ContractFunction], file_path: &str) -> (r: Vec<
    Finding,
>)
    ensures
        check_output(SorobanCheck::ReentrancyExternalCall, functions@, file_path@, r@),
{
    run_check(SorobanCheck::ReentrancyExternalCall, functions, file_path)
}

/// A price read from a single spot-price call with no averaging.
pub fn detect_thin_liquidity_oracle_price(functions: &[ContractFunction], file_path: &str) -> (r: Vec<
    Finding,
>)
    ensures
        check_output(SorobanCheck::ThinLiquidityOraclePrice, functions@, file_path@, r@),
{
    run_check(SorobanCheck::ThinLiquidityOraclePrice, functions, file_path)
}

/// `unwrap()`/`expect()` calls, which abort the whole invocation.
pub fn detect_unhandled_panic(functions: &[ContractFunction], file_path: &str) -> (r: Vec<Finding>)
    ensures
        check_output(SorobanCheck::UnhandledPanic, functions@, file_path@, r@),
{
    run_check(SorobanCheck::UnhandledPanic, functions, file_path)
}

/// The checks `detect_all` runs, in order.
pub open spec fn all_checks() -> Seq<SorobanCheck> {
    seq![
        SorobanCheck::MissingRequireAuth,
        SorobanCheck::UnprotectedUpgrade,
        SorobanCheck::Reinitialization,
        SorobanCheck::UncheckedArithmetic,
        SorobanCheck::StorageTtlNotExtended,
        SorobanCheck::TemporaryStorageCriticalState,
        SorobanCheck::ReentrancyExternalCall,
        SorobanCheck::ThinLiquidityOraclePrice,
        SorobanCheck::UnhandledPanic,
    ]
}

/// `out` is, check after check in `checks`, what each reports.
pub open spec fn checks_output(
    checks: Seq<SorobanCheck>,
    fns: Seq<ContractFunction>,
    file: Seq<char>,
    out: Seq<Finding>,
) -> bool
    decreases checks.len(),
{
    if checks.len() == 0 {
        out.len() == 0
    } else {
        let n = flagged(checks[0], fns).len();
        n <= out.len() && check_output(checks[0], fns, file, out.subrange(0, n as int))
            && checks_output(checks.drop_first(), fns, file, out.subrange(n as int, out.len() as int))
    }
}

/// Every Soroban detector over `functions`, findings listed most severe
/// first, then by line.
pub fn detect_all(functions: &[ContractFunction], file_path: &str) -> (r: Vec<Finding>)
    ensures
        exists|c: Seq<Finding>| checks_output(all_checks(), functions@, file_path@, c) && r@ == sort_findings(c),
{
    let mut all: Vec<Finding> = Vec::new();
    let checks = [
        SorobanCheck::MissingRequireAuth,
        SorobanCheck::UnprotectedUpgrade,
        SorobanCheck::Reinitialization,
        SorobanCheck::UncheckedArithmetic,
        SorobanCheck::StorageTtlNotExtended,
        SorobanCheck::TemporaryStorageCriticalState,
        SorobanCheck::ReentrancyExternalCall,
        SorobanCheck::ThinLiquidityOraclePrice,
        SorobanCheck::UnhandledPanic,
    ];
    assert(checks@ == all_checks());
    let mut k: usize = 0;
    while k < 9
        invariant
            k <= 9,
            checks@ == all_checks(),
            checks_output(all_checks().subrange(0, k as int), functions@, file_path@, all@),
        decreases 9 - k,
    {
        let mut found = run_check(checks[k], functions, file_path);
        let ghost before = all@;
        let ghost mine = found@;
        all.append(&mut found);
        proof {
            lemma_checks_output_push(
                all_checks().subrange(0, k as int),
                checks[k as int],
                functions@,
                file_path@,
                before,
                mine,
            );
            assert(all_checks().subrange(0, k as int).push(checks[k as int]) =~= all_checks().subrange(
                0,
                k as int + 1,
            ));
        }
        k = k + 1;
    }
    assert(all_checks().subrange(0, 9) =~= all_checks());
    sort_by_severity(all)
}

proof fn lemma_checks_output_push(
    checks: Seq<SorobanCheck>,
    c: SorobanCheck,
    fns: Seq<ContractFunction>,
    file: Seq<char>,
    out: Seq<Finding>,
    more: Seq<Finding>,
)
    requires
        checks_output(checks, fns, file, out),
        check_output(c, fns, file, more),
    ensures
        checks_output(checks.push(c), fns, file, out + more),
    decreases checks.len(),
{
    if checks.len() == 0 {
        assert(out + more =~= more);
        assert(checks.push(c)[0] == c);
        assert(checks.push(c).drop_first() =~= Seq::<SorobanCheck>::empty());
        assert((out + more).subrange(0, more.len() as int) =~= more);
        assert((out + more).subrange(more.len() as int, (out + more).len() as int) =~= Seq::<
            Finding,
        >::empty());
        assert(checks_output(Seq::<SorobanCheck>::empty(), fns, file, Seq::<Finding>::empty()));
        assert(check_output(c, fns, file, (out + more).subrange(0, more.len() as int)));
        assert(checks_output(checks.push(c), fns, file, out + more));
    } else {
        let n = flagged(checks[0], fns).len();
        let rest = out.subrange(n as int, out.len() as int);
        lemma_checks_output_push(checks.drop_first(), c, fns, file, rest, more);
        assert(checks.push(c)[0] == checks[0]);
        assert(checks.push(c).drop_first() =~= checks.drop_first().push(c));
        assert((out + more).subrange(0, n as int) =~= out.subrange(0, n as int));
        assert((out + more).subrange(n as int, (out + more).len() as int) =~= rest + more);
        assert(checks_output(checks.push(c), fns, file, out + more));
    }
}

/// The privileged-mutation kind a lower-cased function name suggests, by the
/// first of its words that occurs: withdraw, transfer, pay, mint or burn move
/// funds; set_admin or set_owner change authority; remove closes an account.
pub open spec fn handler_kind(lower: Seq<char>) -> Option<MutationKind> {
    if has_substring(lower, "withdraw"@) || has_substring(lower, "transfer"@) || has_substring(
        lower,
        "pay"@,
    ) || has_substring(lower, "mint"@) || has_substring(lower, "burn"@) {
        Some(MutationKind::FundTransfer)
    } else if has_substring(lower, "set_admin"@) || has_substring(lower, "set_owner"@) {
        Some(MutationKind::AuthorityChange)
    } else if has_substring(lower, "remove"@) {
        Some(MutationKind::AccountClose)
    } else {
        None
    }
}

/// The privileged mutation `f` performs, if any: the one its name suggests,
/// else an upgrade where it replaces the contract's code.
pub open spec fn mutation_of(f: ContractFunction) -> Option<MutationKind> {
    match handler_kind(unicode_lowercase(f.name@)) {
        Some(k) => Some(k),
        None => if f.upgrades_wasm {
            Some(MutationKind::Upgrade)
        } else {
            None
        },
    }
}

/// The functions that perform a privileged mutation, with its kind, in order.
pub open spec fn privileged(fns: Seq<ContractFunction>) -> Seq<(ContractFunction, MutationKind)>
    decreases fns.len(),
{
    if fns.len() == 0 {
        Seq::empty()
    } else {
        privileged(fns.drop_last()) + match mutation_of(fns.last()) {
            Some(k) => seq![(fns.last(), k)],
            None => Seq::empty(),
        }
    }
}

/// `m` is the mutation site of `f`, of kind `k`: guarded by `require_auth`
/// exactly when `f` calls it.
pub open spec fn mutation_is(m: PrivilegedMutation, f: ContractFunction, k: MutationKind) -> bool {
    &&& m.entry_point@ == f.name@
    &&& m.kind == k
    &&& m.line == f.line
    &&& if f.has_require_auth {
        m.guards@.len() == 1 && m.guards@[0].kind == AuthCheckKind::Signer && m.guards@[0].source@
            == "require_auth"@
    } else {
        m.guards@.len() == 0
    }
}

/// `model` is the semantic model of `fns` in `file`.
pub open spec fn model_is(model: SemanticModel, fns: Seq<ContractFunction>, file: Seq<char>) -> bool {
    &&& model.chain@ == "soroban"@
    &&& model.source_path@ == file
    &&& model.mutations@.len() == privileged(fns).len()
    &&& forall|k: int|
        0 <= k < model.mutations@.len() ==> mutation_is(
            #[trigger] model.mutations@[k],
            privileged(fns)[k].0,
            privileged(fns)[k].1,
        )
}

fn mutation_kind_for(f: &ContractFunction) -> (r: Option<MutationKind>)
    ensures
        r == mutation_of(*f),
{
    let lower = to_lowercase(f.name.as_str());
    let l = lower.as_str();
    if str_contains(l, "withdraw") || str_contains(l, "transfer") || str_contains(l, "pay")
        || str_contains(l, "mint") || str_contains(l, "burn") {
        Some(MutationKind::FundTransfer)
    } else if str_contains(l, "set_admin") || str_contains(l, "set_owner") {
        Some(MutationKind::AuthorityChange)
    } else if str_contains(l, "remove") {
        Some(MutationKind::AccountClose)
    } else if f.upgrades_wasm {
        Some(MutationKind::Upgrade)
    } else {
        None
    }
}

/// The chain-agnostic semantic model of a contract's functions: one
/// privileged-mutation site for each function that performs one, guarded
/// where the function calls `require_auth` (Soroban's signer check).
pub fn build_semantic_model(functions: &[ContractFunction], file_path: &str) -> (r: SemanticModel)
    ensures
        model_is(r, functions@, file_path@),
{
    let mut model = SemanticModel::new("soroban", file_path);
    let mut i: usize = 0;
    assert(functions@.subrange(0, 0) =~= Seq::<ContractFunction>::empty());
    while i < functions.len()
        invariant
            i <= functions@.len(),
            model_is(model, functions@.subrange(0, i as int), file_path@),
        decreases functions.len() - i,
    {
        let f = &functions[i];
        let ghost pre = functions@.subrange(0, i as int);
        let ghost next = functions@.subrange(0, i as int + 1);
        proof {
            assert(next.drop_last() =~= pre);
            assert(next.last() == *f);
        }
        match mutation_kind_for(f) {
            Some(kind) => {
                let guards = if f.has_require_auth {
                    vec![AuthorizationCheck { kind: AuthCheckKind::Signer, source: string_from("require_auth") }]
                } else {
                    Vec::new()
                };
                let m = PrivilegedMutation {
                    entry_point: f.name.clone(),
                    kind,
                    line: f.line,
                    guards,
                };
                model.mutations.push(m);
                assert(privileged(next) =~= privileged(pre).push((*f, mutation_of(*f)->0)));
            },
            None => {
                assert(privileged(next) =~= privileged(pre));
            },
        }
        i = i + 1;
    }
    assert(functions@.subrange(0, functions@.len() as int) =~= functions@);
    model
}

/// `out` is what the shared rule reports over `model`.
pub open spec fn rule_output(model: SemanticModel, out: Seq<Finding>) -> bool {
    &&& out.len() == unguarded(model.mutations@).len()
    &&& forall|k: int|
        0 <= k < out.len() ==> reports_unguarded(#[trigger] out[k], model, unguarded(model.mutations@)[k])
}

/// `r` is what every Soroban detector, then the chain-agnostic rule for
/// unguarded privileged mutations, report over the functions: the first
/// finding with each key, most severe first, then by line.
pub open spec fn all_detectors_output(
    functions: Seq<ContractFunction>,
    file_path: Seq<char>,
    r: Seq<Finding>,
) -> bool {
    exists|c: Seq<Finding>, model: SemanticModel, d: Seq<Finding>|
        {
            &&& checks_output(all_checks(), functions, file_path, c)
            &&& model_is(model, functions, file_path)
            &&& rule_output(model, d)
            &&& r == sort_findings(dedup_findings(sort_findings(c) + d))
        }
}

/// Every Soroban detector, then the chain-agnostic rule for unguarded
/// privileged mutations, over the same functions: the first finding with
/// each key, most severe first, then by line.
pub fn run_all_detectors(functions: &[ContractFunction], file_path: &str) -> (r: Vec<Finding>)
    ensures
        all_detectors_output(functions@, file_path@, r@),
{
    let mut findings = detect_all(functions, file_path);
    let ghost sorted = findings@;
    let model = build_semantic_model(functions, file_path);
    let mut shared = find_unauthorized_privileged_mutations(&model);
    let ghost d = shared@;
    findings.append(&mut shared);
    let kept = dedup_by_key(findings);
    let r = sort_by_severity(kept);
    proof {
        let c = choose|c: Seq<Finding>|
            checks_output(all_checks(), functions@, file_path@, c) && sorted == sort_findings(c);
        assert(rule_output(model, d));
        assert(r@ == sort_findings(dedup_findings(sort_findings(c) + d)));
    }
    r
}

/// The number of newlines in `s`.
pub open spec fn newlines(s: Seq<char>) -> nat
    decreases s.len(),
{
    if s.len() == 0 {
        0
    } else {
        newlines(s.drop_last()) + if s.last() == '\n' {
            1nat
        } else {
            0nat
        }
    }
}

/// The line (from 1) where `fn name` first occurs in `source`; 1 where it
/// does not occur.
pub open spec fn fn_line(source: Seq<char>, name: Seq<char>) -> nat {
    match first_occurrence_from(source, "fn "@ + name, 0) {
        Some(p) => newlines(source.subrange(0, p)) + 1,
        None => 1,
    }
}

/// The line of `fn name` in `source`.
pub fn line_of_fn(source: &str, fn_name: &str) -> (r: usize)
    ensures
        r == fn_line(source@, fn_name@),
{
    let mut needle = string_from("fn ");
    push_str(&mut needle, fn_name);
    let sc = chars_of(source);
    let nc = chars_of(needle.as_str());
    match find_from(&sc, &nc, 0) {
        None => 1,
        Some(p) => {
            proof {
                lemma_first_occurrence(sc@, nc@, 0);
                reveal_strlit("fn ");
                assert(nc@.len() >= 3);
            }
            let n = sc.len();
            let mut count: usize = 0;
            let mut i: usize = 0;
            assert(sc@.subrange(0, 0) =~= Seq::<char>::empty());
            while i < p
                invariant
                    i <= p < n,
                    n == sc@.len(),
                    count == newlines(sc@.subrange(0, i as int)),
                    count <= i,
                decreases p - i,
            {
                assert(sc@.subrange(0, i + 1).drop_last() =~= sc@.subrange(0, i as int));
                if sc[i] == '\n' {
                    count = count + 1;
                }
                i = i + 1;
            }
            count + 1
        },
    }
}

/// The number of non-overlapping occurrences of the non-empty `t` in `s`
/// from index `i` on, scanning left to right.
pub open spec fn occurrences_from(s: Seq<char>, t: Seq<char>, i: int) -> nat
    decreases s.len() - i,
{
    if t.len() == 0 || i < 0 || i + t.len() > s.len() {
        0
    } else if occurs_at(s, t, i) {
        1 + occurrences_from(s, t, i + t.len())
    } else {
        occurrences_from(s, t, i + 1)
    }
}

/// The last index, at most `i`, where `t` occurs in `s`.
pub open spec fn last_occurrence_upto(s: Seq<char>, t: Seq<char>, i: int) -> Option<int>
    decreases i + 1,
{
    if i < 0 {
        None
    } else if occurs_at(s, t, i) {
        Some(i)
    } else {
        last_occurrence_upto(s, t, i - 1)
    }
}

/// The last index where `t` occurs in `s`.
pub open spec fn last_occurrence(s: Seq<char>, t: Seq<char>) -> Option<int> {
    last_occurrence_upto(s, t, s.len() - t.len())
}

fn count_occurrences(s: &Vec<char>, t: &Vec<char>) -> (r: usize)
    requires
        t@.len() > 0,
    ensures
        r == occurrences_from(s@, t@, 0),
        r * t@.len() <= s@.len(),
{
    let mut count: usize = 0;
    let mut i: usize = 0;
    while t.len() <= s.len() - i
        invariant
            t@.len() > 0,
            i <= s@.len(),
            count + occurrences_from(s@, t@, i as int) == occurrences_from(s@, t@, 0),
            count * t@.len() <= i,
        decreases s.len() - i,
    {
        if matches_at(s, t, i) {
            proof {
                assert((count + 1) * t@.len() == count * t@.len() + t@.len()) by (nonlinear_arith);
                assert(count <= count * t@.len()) by (nonlinear_arith)
                    requires
                        t@.len() >= 1,
                ;
            }
            count = count + 1;
            i = i + t.len();
        } else {
            i = i + 1;
        }
    }
    count
}

fn last_index_of(s: &Vec<char>, t: &Vec<char>) -> (r: Option<usize>)
    ensures
        match r {
            Some(i) => last_occurrence(s@, t@) == Some(i as int),
            None => last_occurrence(s@, t@) is None,
        },
{
    if t.len() > s.len() {
        return None;
    }
    let mut i: usize = s.len() - t.len();
    loop
        invariant
            i <= s@.len() - t@.len(),
            last_occurrence(s@, t@) == last_occurrence_upto(s@, t@, i as int),
        decreases i,
    {
        if matches_at(s, t, i) {
            return Some(i);
        }
        if i == 0 {
            assert(last_occurrence_upto(s@, t@, -1) is None);
            return None;
        }
        i = i - 1;
    }
}

/// A name that marks an initializer.
pub open spec fn initializer_name(n: Seq<char>) -> bool {
    n == "initialize"@ || n == "init"@ || has_prefix(n, "initialize"@)
}

/// `f` holds the facts a function named `name`, at `fn name` in `source`,
/// shows in `body`, its block as text with the spaces removed; `keys` name
/// the durable-looking state.
pub open spec fn facts_hold(
    f: ContractFunction,
    name: Seq<char>,
    source: Seq<char>,
    body: Seq<char>,
    keys: Seq<Seq<char>>,
) -> bool {
    let lower = unicode_lowercase(body);
    let writes = has_substring(body, ".set("@) || has_substring(body, ".remove("@);
    let call = if first_occurrence_from(body, "invoke_contract"@, 0) is Some {
        first_occurrence_from(body, "invoke_contract"@, 0)
    } else {
        first_occurrence_from(body, "Client::new"@, 0)
    };
    &&& f.name@ == name
    &&& f.line == fn_line(source, name)
    &&& f.has_require_auth == has_substring(body, "require_auth"@)
    &&& f.is_initialize == initializer_name(name)
    &&& f.has_init_guard == (!initializer_name(name) || (first_occurrence_from(body, ".has("@, 0) is Some
        && first_occurrence_from(body, ".set("@, 0) is Some && first_occurrence_from(body, ".has("@, 0)->0
        < first_occurrence_from(body, ".set("@, 0)->0))
    &&& f.upgrades_wasm == has_substring(body, "update_current_contract_wasm"@)
    &&& f.uses_unchecked_arithmetic == ((has_substring(body, "+"@) || has_substring(body, "-"@)
        || has_substring(body, "*"@)) && !(has_substring(lower, "checked_add"@) || has_substring(
        lower,
        "checked_sub"@,
    ) || has_substring(lower, "checked_mul"@) || has_substring(lower, "checked_div"@)))
    &&& f.unwrap_count == occurrences_from(body, ".unwrap("@, 0) + occurrences_from(body, ".expect("@, 0)
    &&& f.writes_persistent_storage == (has_substring(body, "persistent()"@) && writes)
    &&& f.extends_ttl == (has_substring(body, "extend_ttl"@) || has_substring(body, ".bump("@))
    &&& f.writes_temporary_storage_of_sensitive_state == (has_substring(body, "temporary()"@) && writes
        && exists|k: int| 0 <= k < keys.len() && has_substring(lower, #[trigger] keys[k]))
    &&& f.external_call_before_storage_write == (call is Some && last_occurrence(body, ".set("@) is Some
        && call->0 < last_occurrence(body, ".set("@)->0)
    &&& f.uses_single_source_price_oracle == ((has_substring(body, "get_price("@) || has_substring(
        body,
        ".price("@,
    ) || has_substring(body, "spot_price("@) || has_substring(body, "exchange_rate("@))
        && !has_substring(lower, "twap"@) && !has_substring(lower, "time_weighted"@) && !has_substring(
        lower,
        "average_price"@,
    ) && !has_substring(lower, "median"@))
}

fn first_index(s: &Vec<char>, t: &str) -> (r: Option<usize>)
    ensures
        match r {
            Some(i) => first_occurrence_from(s@, t@, 0) == Some(i as int),
            None => first_occurrence_from(s@, t@, 0) is None,
        },
{
    let tc = chars_of(t);
    find_from(s, &tc, 0)
}

/// The texts of the storage keys.
pub open spec fn key_texts(keys: Seq<&str>) -> Seq<Seq<char>> {
    keys.map_values(|k: &str| k@)
}

/// The facts of a function named `name` whose block, as text with the
/// spaces removed, is `body`, and whose `fn name` stands in `source`;
/// `sensitive_keys` name the state that looks durable.
pub fn analyze_function(name: &str, body: &str, source: &str, sensitive_keys: &[&str]) -> (r:
    ContractFunction)
    ensures
        facts_hold(r, name@, source@, body@, key_texts(sensitive_keys@)),
{
    let line = line_of_fn(source, name);
    let lower = to_lowercase(body);
    let l = lower.as_str();
    let bc = chars_of(body);
    let has_require_auth = str_contains(body, "require_auth");
    let is_initialize = str_eq(name, "initialize") || str_eq(name, "init") || str_starts_with(
        name,
        "initialize",
    );
    let has_init_guard = if is_initialize {
        match (first_index(&bc, ".has("), first_index(&bc, ".set(")) {
            (Some(h), Some(st)) => h < st,
            _ => false,
        }
    } else {
        true
    };
    let upgrades_wasm = str_contains(body, "update_current_contract_wasm");
    let has_checked_math = str_contains(l, "checked_add") || str_contains(l, "checked_sub")
        || str_contains(l, "checked_mul") || str_contains(l, "checked_div");
    let has_raw_arithmetic = str_contains(body, "+") || str_contains(body, "-") || str_contains(
        body,
        "*",
    );
    let unwrap_pat = chars_of(".unwrap(");
    let expect_pat = chars_of(".expect(");
    proof {
        reveal_strlit(".unwrap(");
        reveal_strlit(".expect(");
    }
    assert(unwrap_pat@.len() == 8 && expect_pat@.len() == 8);
    let unwraps = count_occurrences(&bc, &unwrap_pat);
    let expects = count_occurrences(&bc, &expect_pat);
    let body_len = bc.len();
    proof {
        assert(unwraps * 8 <= bc@.len()) by (nonlinear_arith)
            requires
                unwraps * unwrap_pat@.len() <= bc@.len(),
                unwrap_pat@.len() == 8,
        ;
        assert(expects * 8 <= bc@.len()) by (nonlinear_arith)
            requires
                expects * expect_pat@.len() <= bc@.len(),
                expect_pat@.len() == 8,
        ;
        assert(body_len == bc@.len());
        assert(unwraps + expects <= usize::MAX) by (nonlinear_arith)
            requires
                unwraps * 8 <= bc@.len(),
                expects * 8 <= bc@.len(),
                bc@.len() <= usize::MAX,
        ;
    }
    let writes = str_contains(body, ".set(") || str_contains(body, ".remove(");
    let writes_persistent_storage = str_contains(body, "persistent()") && writes;
    let extends_ttl = str_contains(body, "extend_ttl") || str_contains(body, ".bump(");
    let mut sensitive = false;
    let mut k: usize = 0;
    while k < sensitive_keys.len()
        invariant
            k <= sensitive_keys@.len(),
            sensitive == exists|j: int|
                0 <= j < k && has_substring(unicode_lowercase(body@), #[trigger] sensitive_keys@[j]@),
            l@ == unicode_lowercase(body@),
        decreases sensitive_keys.len() - k,
    {
        if str_contains(l, sensitive_keys[k]) {
            sensitive = true;
        }
        k = k + 1;
    }
    let temporary = str_contains(body, "temporary()") && writes && sensitive;
    let call = match first_index(&bc, "invoke_contract") {
        Some(p) => Some(p),
        None => first_index(&bc, "Client::new"),
    };
    let set_pat = chars_of(".set(");
    let external_call_before_storage_write = match (call, last_index_of(&bc, &set_pat)) {
        (Some(c), Some(st)) => c < st,
        _ => false,
    };
    let single_source = (str_contains(body, "get_price(") || str_contains(body, ".price(")
        || str_contains(body, "spot_price(") || str_contains(body, "exchange_rate("))
        && !str_contains(l, "twap") && !str_contains(l, "time_weighted") && !str_contains(
        l,
        "average_price",
    ) && !str_contains(l, "median");
    let r = ContractFunction {
        name: string_from(name),
        line,
        has_require_auth,
        is_initialize,
        has_init_guard,
        upgrades_wasm,
        uses_unchecked_arithmetic: has_raw_arithmetic && !has_checked_math,
        unwrap_count: unwraps + expects,
        writes_persistent_storage,
        extends_ttl,
        writes_temporary_storage_of_sensitive_state: temporary,
        external_call_before_storage_write,
        uses_single_source_price_oracle: single_source,
    };
    proof {
        let keys = key_texts(sensitive_keys@);
        assert forall|j: int| 0 <= j < keys.len() implies #[trigger] keys[j] == sensitive_keys@[j]@ by {}
        if sensitive {
            let j = choose|j: int|
                0 <= j < sensitive_keys@.len() && has_substring(unicode_lowercase(body@), #[trigger] sensitive_keys@[j]@);
            assert(has_substring(unicode_lowercase(body@), keys[j]));
        }
        if exists|j: int| 0 <= j < keys.len() && has_substring(unicode_lowercase(body@), #[trigger] keys[j]) {
            let j = choose|j: int| 0 <= j < keys.len() && has_substring(unicode_lowercase(body@), #[trigger] keys[j]);
            assert(has_substring(unicode_lowercase(body@), sensitive_keys@[j]@));
        }
    }
    r
}

/// The markers the program model records for a function: one for each
/// pattern the detectors flag in it, with its line.
pub open spec fn soroban_markers(f: ContractFunction) -> Set<Seq<char>> {
    let l = dec_digits(f.line as nat);
    let pick = |b: bool, tag: Seq<char>| if b {
        set![tag + ":"@ + l]
    } else {
        Set::<Seq<char>>::empty()
    };
    pick(!f.has_require_auth, "SOROBAN_MISSING_REQUIRE_AUTH"@).union(
        pick(f.upgrades_wasm && !f.has_require_auth, "SOROBAN_UNPROTECTED_UPGRADE"@),
    ).union(pick(f.is_initialize && !f.has_init_guard, "SOROBAN_REINITIALIZATION"@)).union(
        pick(f.uses_unchecked_arithmetic, "SOROBAN_UNCHECKED_ARITHMETIC"@),
    ).union(pick(f.writes_persistent_storage && !f.extends_ttl, "SOROBAN_STORAGE_TTL_NOT_EXTENDED"@)).union(
        pick(f.writes_temporary_storage_of_sensitive_state, "SOROBAN_TEMP_STORAGE_CRITICAL"@),
    ).union(pick(f.external_call_before_storage_write, "SOROBAN_REENTRANCY"@)).union(
        pick(f.unwrap_count > 0, "SOROBAN_UNHANDLED_PANIC"@),
    )
}

/// The last function of `fns` named `k`.
pub open spec fn last_named(fns: Seq<ContractFunction>, k: Seq<char>) -> int
    decreases fns.len(),
{
    if fns.len() == 0 {
        -1
    } else if fns.last().name@ == k {
        fns.len() - 1
    } else {
        last_named(fns.drop_last(), k)
    }
}

/// `v` is the state variable of a `#[contract]` struct named `k`.
pub open spec fn contract_var_is(v: StateVar, k: Seq<char>) -> bool {
    &&& v.name@ == k
    &&& v.var_type@ == "contract"@
    &&& !v.is_mutable
    &&& v.visibility matches Some(p) && p@ == "public"@
}

/// `m` is the entry point the program model records for `f`.
pub open spec fn entry_point_is(m: FunctionModel, f: ContractFunction) -> bool {
    &&& m.name@ == f.name@
    &&& m.parameters@.len() == 0
    &&& m.return_type is None
    &&& m.mutates@ == soroban_markers(f)
    &&& m.reads@ == Set::<Seq<char>>::empty()
    &&& m.is_entry_point
    &&& !m.is_pure
}

fn push_marker(set: &mut StrSet, tag: &str, line: usize)
    ensures
        final(set)@ == old(set)@.insert(tag@ + ":"@ + dec_digits(line as nat)),
{
    let mut m = string_from(tag);
    push_str(&mut m, ":");
    push_u128(&mut m, line as u128);
    set.insert(m);
}

fn markers_of(f: &ContractFunction) -> (r: StrSet)
    ensures
        r@ == soroban_markers(*f),
{
    let mut set = StrSet::new();
    if !f.has_require_auth {
        push_marker(&mut set, "SOROBAN_MISSING_REQUIRE_AUTH", f.line);
    }
    if f.upgrades_wasm && !f.has_require_auth {
        push_marker(&mut set, "SOROBAN_UNPROTECTED_UPGRADE", f.line);
    }
    if f.is_initialize && !f.has_init_guard {
        push_marker(&mut set, "SOROBAN_REINITIALIZATION", f.line);
    }
    if f.uses_unchecked_arithmetic {
        push_marker(&mut set, "SOROBAN_UNCHECKED_ARITHMETIC", f.line);
    }
    if f.writes_persistent_storage && !f.extends_ttl {
        push_marker(&mut set, "SOROBAN_STORAGE_TTL_NOT_EXTENDED", f.line);
    }
    if f.writes_temporary_storage_of_sensitive_state {
        push_marker(&mut set, "SOROBAN_TEMP_STORAGE_CRITICAL", f.line);
    }
    if f.external_call_before_storage_write {
        push_marker(&mut set, "SOROBAN_REENTRANCY", f.line);
    }
    if f.unwrap_count > 0 {
        push_marker(&mut set, "SOROBAN_UNHANDLED_PANIC", f.line);
    }
    assert(set@ =~= soroban_markers(*f));
    set
}


/// What the parser reads of one top-level item of a Rust source file.
#[derive(Debug, Clone)]
pub enum ItemFacts {
    /// An `impl` block: the paths of its attributes as token text, and for
    /// each of its items, where it is a function, its visibility, its name
    /// and its body as token text.
    Impl(Vec<String>, Vec<Option<(String, String, String)>>),
    /// A `struct`: the paths of its attributes as token text, and its name.
    Struct(Vec<String>, String),
    /// Any other item.
    Other,
}

/// What an `ItemFacts` holds, with each text as its characters.
pub enum ItemFactsModel {
    Impl(Seq<Seq<char>>, Seq<Option<(Seq<char>, Seq<char>, Seq<char>)>>),
    Struct(Seq<Seq<char>>, Seq<char>),
    Other,
}

/// A member of an impl block, with each text as its characters.
pub open spec fn member_view(m: Option<(String, String, String)>) -> Option<
    (Seq<char>, Seq<char>, Seq<char>),
> {
    match m {
        Some((v, n, b)) => Some((v@, n@, b@)),
        None => None,
    }
}

impl View for ItemFacts {
    type V = ItemFactsModel;

    open spec fn view(&self) -> ItemFactsModel {
        match self {
            ItemFacts::Impl(a, m) => ItemFactsModel::Impl(string_views(a@), m@.map_values(|x| member_view(x))),
            ItemFacts::Struct(a, n) => ItemFactsModel::Struct(string_views(a@), n@),
            ItemFacts::Other => ItemFactsModel::Other,
        }
    }
}

/// What `syn` reads of the Rust source `source`: its top-level items, or the
/// message of the parse error.
pub uninterp spec fn syn_items(source: Seq<char>) -> Result<Seq<ItemFactsModel>, Seq<char>>;

/// The items, or the error message, with each text as its characters.
pub open spec fn items_view(r: Result<Vec<ItemFacts>, String>) -> Result<Seq<ItemFactsModel>, Seq<char>> {
    match r {
        Ok(v) => Ok(v@.map_values(|i: ItemFacts| i@)),
        Err(e) => Err(e@),
    }
}

/// `syn::parse_file`: the top-level items of the Rust source `source`, each
/// read as `ItemFacts` with paths, visibilities and bodies printed by
/// `quote::ToTokens`, or the parse error's message; named by `syn_items`.
#[verifier::external_body]
fn rust_items(source: &str) -> (r: Result<Vec<ItemFacts>, String>)
    ensures
        items_view(r) == syn_items(source@),
{
    let paths = |v: &[Attribute]| v.iter().map(|a| a.path().to_token_stream().to_string()).collect();
    parse_file(source).map(|file| file.items.iter().map(|item| match item {
        ItemImpl(b) => Impl(paths(&b.attrs), b.items.iter().map(|m| match m {
            ImplFn(f) => Some((f.vis.to_token_stream().to_string(), f.sig.ident.to_string(), f.block.to_token_stream().to_string())),
            _ => None
        }).collect()),
        ItemStruct(x) => Struct(paths(&x.attrs), x.ident.to_string()),
        _ => Other
    }).collect()).map_err(|e| e.to_string())
}

/// The `pub` functions among the members of an impl block, in order: each
/// one's name and body text.
pub open spec fn public_fns(members: Seq<Option<(Seq<char>, Seq<char>, Seq<char>)>>) -> Seq<
    (Seq<char>, Seq<char>),
>
    decreases members.len(),
{
    if members.len() == 0 {
        Seq::empty()
    } else {
        public_fns(members.drop_last()) + match members.last() {
            Some((v, n, b)) => if v == "pub"@ {
                seq![(n, b)]
            } else {
                Seq::empty()
            },
            None => Seq::empty(),
        }
    }
}

/// The `pub` functions of the `#[contractimpl]` blocks among `items`, in
/// order: each one's name and body text.
pub open spec fn contract_fns(items: Seq<ItemFactsModel>) -> Seq<(Seq<char>, Seq<char>)>
    decreases items.len(),
{
    if items.len() == 0 {
        Seq::empty()
    } else {
        contract_fns(items.drop_last()) + match items.last() {
            ItemFactsModel::Impl(attrs, members) => if attrs.contains("contractimpl"@) {
                public_fns(members)
            } else {
                Seq::empty()
            },
            _ => Seq::empty(),
        }
    }
}

/// The names of the `#[contract]` structs among `items`, in order.
pub open spec fn contract_struct_names(items: Seq<ItemFactsModel>) -> Seq<Seq<char>>
    decreases items.len(),
{
    if items.len() == 0 {
        Seq::empty()
    } else {
        contract_struct_names(items.drop_last()) + match items.last() {
            ItemFactsModel::Struct(attrs, name) => if attrs.contains("contract"@) {
                seq![name]
            } else {
                Seq::empty()
            },
            _ => Seq::empty(),
        }
    }
}

/// `fns` holds, in order, the facts of the functions named with their body
/// texts in `named`: each body read with its spaces taken out.
pub open spec fn functions_read(
    fns: Seq<ContractFunction>,
    named: Seq<(Seq<char>, Seq<char>)>,
    source: Seq<char>,
    keys: Seq<Seq<char>>,
) -> bool {
    &&& fns.len() == named.len()
    &&& forall|k: int|
        0 <= k < fns.len() ==> facts_hold(
            #[trigger] fns[k],
            named[k].0,
            source,
            replaced(named[k].1, " "@, ""@),
            keys,
        )
}

/// Every `pub fn` of a `#[contractimpl]` block of the Rust source `source`,
/// in order, with the facts the detectors read; or the parse error's
/// message.
pub fn parse_contract_functions(source: &str, sensitive_keys: &[&str]) -> (r: Result<
    Vec<ContractFunction>,
    String,
>)
    ensures
        match syn_items(source@) {
            Ok(items) => r matches Ok(fns) && functions_read(
                fns@,
                contract_fns(items),
                source@,
                key_texts(sensitive_keys@),
            ),
            Err(m) => r matches Err(e) && e@ == m,
        },
{
    let items = match rust_items(source) {
        Ok(v) => v,
        Err(e) => {
            return Err(e);
        },
    };
    let ghost model = items@.map_values(|x: ItemFacts| x@);
    let ghost keys = key_texts(sensitive_keys@);
    proof {
        reveal_strlit(" ");
        assert(model.subrange(0, 0) =~= Seq::<ItemFactsModel>::empty());
    }
    let mut out: Vec<ContractFunction> = Vec::new();
    let mut i: usize = 0;
    while i < items.len()
        invariant
            i <= items@.len(),
            model == items@.map_values(|x: ItemFacts| x@),
            syn_items(source@) == Ok::<Seq<ItemFactsModel>, Seq<char>>(model),
            keys == key_texts(sensitive_keys@),
            " "@.len() > 0,
            functions_read(out@, contract_fns(model.subrange(0, i as int)), source@, keys),
        decreases items.len() - i,
    {
        let ghost done = contract_fns(model.subrange(0, i as int));
        proof {
            let next = model.subrange(0, i as int + 1);
            assert(next.drop_last() =~= model.subrange(0, i as int));
            assert(next.last() == items@[i as int]@);
        }
        match &items[i] {
            ItemFacts::Impl(attrs, members) => {
                if contains_string(attrs, "contractimpl") {
                    let ghost mm = members@.map_values(|x| member_view(x));
                    proof {
                        reveal_strlit("contractimpl");
                        assert(mm.subrange(0, 0) =~= Seq::<Option<(Seq<char>, Seq<char>, Seq<char>)>>::empty());
                        assert(done + public_fns(mm.subrange(0, 0)) =~= done);
                    }
                    let mut j: usize = 0;
                    while j < members.len()
                        invariant
                            j <= members@.len(),
                            mm == members@.map_values(|x| member_view(x)),
                            " "@.len() > 0,
                            functions_read(out@, done + public_fns(mm.subrange(0, j as int)), source@, keys),
                            keys == key_texts(sensitive_keys@),
                        decreases members.len() - j,
                    {
                        let ghost before = out@;
                        let ghost prev = done + public_fns(mm.subrange(0, j as int));
                        proof {
                            let next = mm.subrange(0, j as int + 1);
                            assert(next.drop_last() =~= mm.subrange(0, j as int));
                            assert(next.last() == member_view(members@[j as int]));
                        }
                        match &members[j] {
                            Some((v, n, b)) => {
                                if str_eq(v.as_str(), "pub") {
                                    let body = replace_all(b.as_str(), " ", "");
                                    let f = analyze_function(n.as_str(), body.as_str(), source, sensitive_keys);
                                    out.push(f);
                                    proof {
                                        reveal_strlit("pub");
                                        let nx = done + public_fns(mm.subrange(0, j as int + 1));
                                        assert(nx =~= prev.push((n@, b@)));
                                        assert forall|k: int| 0 <= k < out@.len() implies facts_hold(
                                            #[trigger] out@[k],
                                            nx[k].0,
                                            source@,
                                            replaced(nx[k].1, " "@, ""@),
                                            keys,
                                        ) by {
                                            if k < before.len() {
                                                assert(out@[k] == before[k]);
                                                assert(nx[k] == prev[k]);
                                            }
                                        }
                                    }
                                } else {
                                    proof {
                                        reveal_strlit("pub");
                                        assert(done + public_fns(mm.subrange(0, j as int + 1)) =~= prev);
                                    }
                                }
                            },
                            None => {
                                proof {
                                    assert(done + public_fns(mm.subrange(0, j as int + 1)) =~= prev);
                                }
                            },
                        }
                        j = j + 1;
                    }
                    proof {
                        assert(mm.subrange(0, members@.len() as int) =~= mm);
                        assert(contract_fns(model.subrange(0, i as int + 1)) =~= done + public_fns(mm));
                    }
                } else {
                    proof {
                        reveal_strlit("contractimpl");
                        assert(contract_fns(model.subrange(0, i as int + 1)) =~= done);
                    }
                }
            },
            _ => {
                proof {
                    assert(contract_fns(model.subrange(0, i as int + 1)) =~= done);
                }
            },
        }
        i = i + 1;
    }
    proof {
        assert(model.subrange(0, items@.len() as int) =~= model);
    }
    Ok(out)
}

/// The names of the `#[contract]` structs among the items, in order.
fn contract_structs_of(items: &Vec<ItemFacts>) -> (r: Vec<String>)
    ensures
        string_views(r@) == contract_struct_names(items@.map_values(|x: ItemFacts| x@)),
{
    let ghost model = items@.map_values(|x: ItemFacts| x@);
    let mut out: Vec<String> = Vec::new();
    let mut i: usize = 0;
    proof {
        assert(model.subrange(0, 0) =~= Seq::<ItemFactsModel>::empty());
        assert(string_views(out@) =~= Seq::<Seq<char>>::empty());
    }
    while i < items.len()
        invariant
            i <= items@.len(),
            model == items@.map_values(|x: ItemFacts| x@),
            string_views(out@) == contract_struct_names(model.subrange(0, i as int)),
        decreases items.len() - i,
    {
        let ghost before = out@;
        proof {
            let next = model.subrange(0, i as int + 1);
            assert(next.drop_last() =~= model.subrange(0, i as int));
            assert(next.last() == items@[i as int]@);
            reveal_strlit("contract");
        }
        match &items[i] {
            ItemFacts::Struct(attrs, name) => {
                if contains_string(attrs, "contract") {
                    out.push(name.clone());
                    proof {
                        assert(string_views(out@) =~= string_views(before).push(name@));
                    }
                }
            },
            _ => {},
        }
        i = i + 1;
    }
    proof {
        assert(model.subrange(0, items@.len() as int) =~= model);
    }
    out
}

/// `r` is the program model of a contract at `source_path`: a public state
/// variable for each struct named in `structs`, and an entry point for each
/// function, recording the patterns the detectors flag in it; a later struct
/// or function of the same name replaces an earlier one.
pub open spec fn soroban_program(
    r: ProgramModel,
    source_path: Seq<char>,
    structs: Seq<String>,
    functions: Seq<ContractFunction>,
) -> bool {
    &&& r.name@ == "soroban_contract"@
    &&& r.chain@ == "soroban"@
    &&& r.source_path@ == source_path
    &&& forall|k: Seq<char>|
        #[trigger] r.state_vars@.contains_key(k) <==> exists|i: int|
            0 <= i < structs.len() && structs[i]@ == k
    &&& forall|k: Seq<char>| #[trigger]
        r.state_vars@.contains_key(k) ==> contract_var_is(r.state_vars@[k], k)
    &&& forall|k: Seq<char>|
        #[trigger] r.functions@.contains_key(k) <==> last_named(functions, k) >= 0
    &&& forall|k: Seq<char>| #[trigger]
        r.functions@.contains_key(k) ==> entry_point_is(
            r.functions@[k],
            functions[last_named(functions, k)],
        ) && r.mutation_graph@[k]@ == soroban_markers(functions[last_named(functions, k)])
    &&& r.mutation_graph@.dom() == r.functions@.dom()
}

impl SorobanAnalyzer {
    /// The program model of a contract at `source_path`: a public state
    /// variable for each `#[contract]` struct named in `contract_structs`,
    /// and an entry point for each function, recording the patterns the
    /// detectors flag in it; a later struct or function of the same name
    /// replaces an earlier one.
    pub fn program_model(
        &self,
        source_path: &str,
        contract_structs: &[String],
        functions: &[ContractFunction],
    ) -> (r: ProgramModel)
        ensures
            soroban_program(r, source_path@, contract_structs@, functions@),
    {
        let mut program = ProgramModel::new(
            string_from("soroban_contract"),
            string_from("soroban"),
            string_from(source_path),
        );
        let mut i: usize = 0;
        while i < contract_structs.len()
            invariant
                i <= contract_structs@.len(),
                program.name@ == "soroban_contract"@,
                program.chain@ == "soroban"@,
                program.source_path@ == source_path@,
                program.functions@ == Map::<Seq<char>, FunctionModel>::empty(),
                program.mutation_graph@ == Map::<Seq<char>, StrSet>::empty(),
                forall|k: Seq<char>|
                    #[trigger] program.state_vars@.contains_key(k) <==> exists|j: int|
                        0 <= j < i && contract_structs@[j]@ == k,
                forall|k: Seq<char>| #[trigger]
                    program.state_vars@.contains_key(k) ==> contract_var_is(program.state_vars@[k], k),
            decreases contract_structs.len() - i,
        {
            let v = StateVar {
                name: contract_structs[i].clone(),
                var_type: string_from("contract"),
                is_mutable: false,
                visibility: Some(string_from("public")),
            };
            program.add_state_var(v);
            proof {
                assert forall|k: Seq<char>|
                    #[trigger] program.state_vars@.contains_key(k) <==> exists|j: int|
                        0 <= j < i + 1 && contract_structs@[j]@ == k by {
                    if program.state_vars@.contains_key(k) && k != contract_structs@[i as int]@ {
                        let j = choose|j: int| 0 <= j < i && contract_structs@[j]@ == k;
                        assert(0 <= j < i + 1 && contract_structs@[j]@ == k);
                    }
                    if k == contract_structs@[i as int]@ {
                        assert(contract_structs@[i as int]@ == k);
                    }
                }
            }
            i = i + 1;
        }
        let mut j: usize = 0;
        assert(functions@.subrange(0, 0) =~= Seq::<ContractFunction>::empty());
        while j < functions.len()
            invariant
                j <= functions@.len(),
                program.name@ == "soroban_contract"@,
                program.chain@ == "soroban"@,
                program.source_path@ == source_path@,
                forall|k: Seq<char>|
                    #[trigger] program.state_vars@.contains_key(k) <==> exists|i: int|
                        0 <= i < contract_structs@.len() && contract_structs@[i]@ == k,
                forall|k: Seq<char>| #[trigger]
                    program.state_vars@.contains_key(k) ==> contract_var_is(program.state_vars@[k], k),
                forall|k: Seq<char>|
                    #[trigger] program.functions@.contains_key(k) <==> last_named(
                        functions@.subrange(0, j as int),
                        k,
                    ) >= 0,
                forall|k: Seq<char>| #[trigger]
                    program.functions@.contains_key(k) ==> entry_point_is(
                        program.functions@[k],
                        functions@[last_named(functions@.subrange(0, j as int), k)],
                    ) && program.mutation_graph@[k]@ == soroban_markers(
                        functions@[last_named(functions@.subrange(0, j as int), k)],
                    ),
                program.mutation_graph@.dom() == program.functions@.dom(),
            decreases functions.len() - j,
        {
            let f = &functions[j];
            let ghost before = program;
            let m = FunctionModel {
                name: f.name.clone(),
                parameters: Vec::new(),
                return_type: None,
                mutates: markers_of(f),
                reads: StrSet::new(),
                is_entry_point: true,
                is_pure: false,
            };
            program.add_function(m);
            proof {
                let pre = functions@.subrange(0, j as int);
                let next = functions@.subrange(0, j as int + 1);
                assert(next.drop_last() =~= pre);
                assert(next.last() == *f);
                assert(program.mutation_graph@.dom() =~= program.functions@.dom());
                assert forall|k: Seq<char>| #[trigger]
                    program.functions@.contains_key(k) implies entry_point_is(
                        program.functions@[k],
                        functions@[last_named(next, k)],
                    ) && program.mutation_graph@[k]@ == soroban_markers(
                        functions@[last_named(next, k)],
                    ) by {
                    if k == f.name@ {
                        assert(last_named(next, k) == j);
                    } else {
                        assert(last_named(next, k) == last_named(pre, k));
                        assert(before.functions@.contains_key(k));
                        lemma_last_named_bound(pre, k);
                        assert(program.mutation_graph@.get(k) == before.mutation_graph@.get(k));
                    }
                }
                assert forall|k: Seq<char>|
                    #[trigger] program.functions@.contains_key(k) <==> last_named(next, k) >= 0 by {
                    if k != f.name@ {
                        assert(last_named(next, k) == last_named(pre, k));
                    }
                }
            }
            j = j + 1;
        }
        assert(functions@.subrange(0, functions@.len() as int) =~= functions@);
        program
    }
}

proof fn lemma_last_named_bound(fns: Seq<ContractFunction>, k: Seq<char>)
    ensures
        -1 <= last_named(fns, k) < fns.len(),
        last_named(fns, k) >= 0 ==> fns[last_named(fns, k)].name@ == k,
    decreases fns.len(),
{
    if fns.len() > 0 && fns.last().name@ != k {
        lemma_last_named_bound(fns.drop_last(), k);
    }
}


/// `p` is the program model of the contract at `source_path` whose source
/// reads as `items`: its `#[contract]` structs, and the facts of the `pub`
/// functions of its `#[contractimpl]` blocks.
pub open spec fn analyzed_as(
    p: ProgramModel,
    source_path: Seq<char>,
    items: Seq<ItemFactsModel>,
    source: Seq<char>,
    keys: Seq<Seq<char>>,
) -> bool {
    exists|structs: Seq<String>, fns: Seq<ContractFunction>|
        #![trigger soroban_program(p, source_path, structs, fns)]
        string_views(structs) == contract_struct_names(items) && functions_read(
            fns,
            contract_fns(items),
            source,
            keys,
        ) && soroban_program(p, source_path, structs, fns)
}


/// Storage keys whose state looks durable: such state kept in temporary
/// storage is flagged.
pub const SENSITIVE_STORAGE_KEYS: [&'static str; 5] = ["admin", "owner", "balance", "supply", "allowance"];

/// `r` is what the detectors report on the Rust source `source` at
/// `file_path`, read as `items`.
pub open spec fn source_findings(
    items: Seq<ItemFactsModel>,
    source: Seq<char>,
    file_path: Seq<char>,
    r: Seq<Finding>,
) -> bool {
    exists|fns: Seq<ContractFunction>|
        #![trigger all_detectors_output(fns, file_path, r)]
        functions_read(fns, contract_fns(items), source, key_texts(SENSITIVE_STORAGE_KEYS@))
            && all_detectors_output(fns, file_path, r)
}

/// Every detector on the Rust source of a contract at `file_path`: the
/// findings over the `pub` functions of its `#[contractimpl]` blocks, read
/// with `SENSITIVE_STORAGE_KEYS`; none where the source does not parse.
pub fn detect_in_source(source: &str, file_path: &str) -> (r: Vec<Finding>)
    ensures
        match syn_items(source@) {
            Err(_) => r@.len() == 0,
            Ok(items) => source_findings(items, source@, file_path@, r@),
        },
{
    let keys = SENSITIVE_STORAGE_KEYS;
    match parse_contract_functions(source, &keys) {
        Err(_) => Vec::new(),
        Ok(functions) => {
            let r = run_all_detectors(functions.as_slice(), file_path);
            proof {
                assert(keys@ == SENSITIVE_STORAGE_KEYS@);
                assert(all_detectors_output(functions@, file_path@, r@));
            }
            r
        },
    }
}

impl SorobanAnalyzer {
    /// The program model of the contract at `source_path` whose Rust source
    /// is `source`: its `#[contract]` structs and the `pub` functions of its
    /// `#[contractimpl]` blocks, as `program_model` records them; an analysis
    /// error where the source does not parse.
    pub fn analyze(&self, source_path: &str, source: &str, sensitive_keys: &[&str]) -> (r: Result<
        ProgramModel,
        InvarError,
    >)
        ensures
            match syn_items(source@) {
                Err(m) => r matches Err(InvarError::AnalysisFailed(t)) && t@ == "Failed to parse Rust: "@
                    + m,
                Ok(items) => match r {
                    Ok(program) => analyzed_as(
                        program,
                        source_path@,
                        items,
                        source@,
                        key_texts(sensitive_keys@),
                    ),
                    Err(_) => false,
                },
            },
    {
        let items = match rust_items(source) {
            Ok(v) => v,
            Err(e) => {
                let mut t = string_from("Failed to parse Rust: ");
                push_str(&mut t, e.as_str());
                return Err(InvarError::AnalysisFailed(t));
            },
        };
        let structs = contract_structs_of(&items);
        let functions = match parse_contract_functions(source, sensitive_keys) {
            Ok(f) => f,
            Err(e) => {
                let mut t = string_from("Failed to parse Soroban contract functions: ");
                push_str(&mut t, e.as_str());
                return Err(InvarError::AnalysisFailed(t));
            },
        };
        let p = self.program_model(source_path, structs.as_slice(), functions.as_slice());
        proof {
            let model = items@.map_values(|x: ItemFacts| x@);
            assert(syn_items(source@) == Ok::<Seq<ItemFactsModel>, Seq<char>>(model));
            assert(string_views(structs@) == contract_struct_names(model));
            assert(functions_read(
                functions@,
                contract_fns(model),
                source@,
                key_texts(sensitive_keys@),
            ));
            assert(soroban_program(p, source_path@, structs@, functions@));
            assert(analyzed_as(p, source_path@, model, source@, key_texts(sensitive_keys@)));
        }
        Ok(p)
    }
}


/// Each function a check flags is among the functions it flags.
proof fn lemma_flagged_includes(c: SorobanCheck, fns: Seq<ContractFunction>, i: int)
    requires
        0 <= i < fns.len(),
        flags(c, fns[i]),
    ensures
        exists|j: int| 0 <= j < flagged(c, fns).len() && flagged(c, fns)[j] == fns[i],
    decreases fns.len(),
{
    if i == fns.len() - 1 {
        let p = flagged(c, fns.drop_last());
        assert(flagged(c, fns)[p.len() as int] == fns[i]);
    } else {
        let d = fns.drop_last();
        assert(d[i] == fns[i]);
        lemma_flagged_includes(c, d, i);
        let j = choose|j: int| 0 <= j < flagged(c, d).len() && flagged(c, d)[j] == d[i];
        assert(flagged(c, fns)[j] == fns[i]);
    }
}

/// The missing-`require_auth` check reports every function that calls no
/// `require_auth` and whose lower-cased name contains one of the verbs of a
/// privileged action: withdraw, transfer, pay, mint, burn, set_admin,
/// set_owner, remove, upgrade. The finding is `sor_missing_require_auth`,
/// critical, at the function's line, naming it.
pub proof fn lemma_privileged_verbs_need_auth(
    fns: Seq<ContractFunction>,
    file: Seq<char>,
    out: Seq<Finding>,
    i: int,
    verb: Seq<char>,
)
    requires
        check_output(SorobanCheck::MissingRequireAuth, fns, file, out),
        0 <= i < fns.len(),
        !fns[i].has_require_auth,
        verb == "withdraw"@ || verb == "transfer"@ || verb == "pay"@ || verb == "mint"@ || verb
            == "burn"@ || verb == "set_admin"@ || verb == "set_owner"@ || verb == "remove"@ || verb
            == "upgrade"@,
        has_substring(unicode_lowercase(fns[i].name@), verb),
    ensures
        exists|j: int|
            0 <= j < out.len() && (#[trigger] out[j]).invariant_id@ == "sor_missing_require_auth"@
                && out[j].severity == Severity::Critical && out[j].line == fns[i].line
                && out[j].file@ == file && out[j].snippet@ == fns[i].name@ && out[j].message@
                == "Function '"@ + fns[i].name@
                + "' performs a privileged action with no require_auth() call reaching it"@,
{
    assert(flags(SorobanCheck::MissingRequireAuth, fns[i]));
    lemma_flagged_includes(SorobanCheck::MissingRequireAuth, fns, i);
    let j = choose|j: int|
        0 <= j < flagged(SorobanCheck::MissingRequireAuth, fns).len() && flagged(
            SorobanCheck::MissingRequireAuth,
            fns,
        )[j] == fns[i];
    assert(reports_check(out[j], SorobanCheck::MissingRequireAuth, fns[i], file));
}


/// A function is an initializer exactly when it is named `initialize` or
/// `init`, or its name starts with `initialize`; an initializer is guarded
/// only where its body checks storage with `.has(` before its first `.set(`,
/// and a function that is no initializer never counts as unguarded.
pub proof fn lemma_initializers(
    f: ContractFunction,
    name: Seq<char>,
    source: Seq<char>,
    body: Seq<char>,
    keys: Seq<Seq<char>>,
)
    requires
        facts_hold(f, name, source, body, keys),
    ensures
        f.is_initialize == (name == "initialize"@ || name == "init"@ || has_prefix(name, "initialize"@)),
        !f.is_initialize ==> f.has_init_guard,
        f.is_initialize ==> (f.has_init_guard == (first_occurrence_from(body, ".has("@, 0) is Some
            && first_occurrence_from(body, ".set("@, 0) is Some && first_occurrence_from(body, ".has("@, 0)->0
            < first_occurrence_from(body, ".set("@, 0)->0)),
{
}

} // verus!
