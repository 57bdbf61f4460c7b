//! The chain-agnostic semantic model of authorization and privileged
//! mutations. Each chain's analyzer fills it from its own source; detection
//! rules read only this model, so one rule serves every chain.
use vstd::prelude::*;
use crate::text::{debug_quoted, debug_string, string_from};

verus! {

/// The kind of authorization check guarding a privileged mutation.
#[derive(Debug, Clone, PartialEq, Eq)]
pub enum AuthCheckKind {
    /// A cryptographic signer/ownership check.
    Signer,
    /// A role/capability-based check.
    RoleOrCapability,
    /// A multisig/governance-gated check.
    Multisig,
    /// Another explicit guard the extractor recognized but couldn't classify.
    Other(String),
}

/// A single authorization guard found protecting a mutation.
#[derive(Debug, Clone, PartialEq, Eq)]
pub struct AuthorizationCheck {
    /// The classification of this guard.
    pub kind: AuthCheckKind,
    /// Human-readable source of the check (modifier name, account field,
    /// capability parameter, ...), for citation in findings.
    pub source: String,
}

/// The category of a privileged mutation.
#[derive(Debug, Clone, PartialEq, Eq)]
pub enum MutationKind {
    /// Moves funds/tokens/value out of the program's control.
    FundTransfer,
    /// Changes who controls an account, role, or the program itself.
    AuthorityChange,
    /// Upgrades the program/contract's code.
    Upgrade,
    /// Closes/destroys an account and reclaims its resources.
    AccountClose,
    /// A privileged mutation that doesn't fit the categories above.
    Other(String),
}

/// How `{:?}` shows a mutation kind.
pub open spec fn mutation_kind_debug(k: MutationKind) -> Seq<char> {
    match k {
        MutationKind::FundTransfer => "FundTransfer"@,
        MutationKind::AuthorityChange => "AuthorityChange"@,
        MutationKind::Upgrade => "Upgrade"@,
        MutationKind::AccountClose => "AccountClose"@,
        MutationKind::Other(s) => "Other("@ + debug_quoted(s@) + ")"@,
    }
}

impl MutationKind {
    /// The kind as `{:?}` shows it.
    pub fn debug_text(&self) -> (r: String)
        ensures
            r@ == mutation_kind_debug(*self),
    {
        match self {
            MutationKind::FundTransfer => string_from("FundTransfer"),
            MutationKind::AuthorityChange => string_from("AuthorityChange"),
            MutationKind::Upgrade => string_from("Upgrade"),
            MutationKind::AccountClose => string_from("AccountClose"),
            MutationKind::Other(s) => {
                let mut out = string_from("Other(");
                let q = debug_string(s.as_str());
                crate::text::push_str(&mut out, q.as_str());
                crate::text::push_str(&mut out, ")");
                assert(out@ =~= mutation_kind_debug(*self));
                out
            },
        }
    }
}

/// A privileged mutation site: an entry point that performs a sensitive
/// state change, with the authorization checks found guarding it.
#[derive(Debug, Clone)]
pub struct PrivilegedMutation {
    /// Name of the function/instruction handler/entry point.
    pub entry_point: String,
    /// What kind of privileged mutation this is.
    pub kind: MutationKind,
    /// 1-indexed source line, for citation in findings.
    pub line: usize,
    /// Authorization checks found guarding this mutation; empty when none
    /// reaches the entry point.
    pub guards: Vec<AuthorizationCheck>,
}

impl PrivilegedMutation {
    /// Whether at least one authorization check guards this mutation.
    pub fn is_guarded(&self) -> (r: bool)
        ensures
            r == (self.guards@.len() > 0),
    {
        self.guards.len() != 0
    }
}

/// The privileged mutation sites extracted from one source file.
#[derive(Debug, Clone)]
pub struct SemanticModel {
    /// Chain tag: "evm", "solana", "move", ...
    pub chain: String,
    /// Source file path, for citation in findings.
    pub source_path: String,
    /// Extracted privileged mutation sites.
    pub mutations: Vec<PrivilegedMutation>,
}

impl SemanticModel {
    /// An empty model for the given chain and source.
    pub fn new(chain: &str, source_path: &str) -> (r: Self)
        ensures
            r.chain@ == chain@,
            r.source_path@ == source_path@,
            r.mutations@.len() == 0,
    {
        SemanticModel {
            chain: string_from(chain),
            source_path: string_from(source_path),
            mutations: Vec::new(),
        }
    }
}

} // verus!
