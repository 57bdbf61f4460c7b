//! The built-in invariant library: invariants grouped by category, with
//! defaults for each supported chain compiled by the definition parser.
use vstd::prelude::*;
use crate::dsl_parser::{definition, expr_is, parse_invariant, parse_outcome_is};
use crate::error::InvarError;
use crate::model::{Expression, Invariant};
use crate::strmap::{string_views, StrMap};
use crate::threat_model::str_views;
use crate::text::{joined, push_str, str_eq, string_from, to_lowercase, unicode_lowercase};
use crate::words::{split_whitespace, words_of};

verus! {

/// A word of a built-in constraint with the keywords `AND` and `OR` written
/// as the grammar's `&&` and `||`.
pub open spec fn dsl_word(w: Seq<char>) -> Seq<char> {
    if w == "AND"@ {
        "&&"@
    } else if w == "OR"@ {
        "||"@
    } else {
        w
    }
}

/// The words of a constraint, keywords rewritten, joined by single spaces.
pub open spec fn normalized_constraint(c: Seq<char>) -> Seq<char> {
    joined(words_of(c).map_values(|w: Seq<char>| dsl_word(w)), " "@)
}

/// The definition a built-in constraint is compiled from.
pub open spec fn constraint_definition(id: Seq<char>, c: Seq<char>) -> Seq<char> {
    "invariant "@ + id + " { "@ + normalized_constraint(c) + " }"@
}

/// `e` is what compiling the constraint `c` of `id` yields: the parsed
/// expression, or the variable `id` where the definition does not parse.
pub open spec fn compiled_is(e: Expression, id: Seq<char>, c: Seq<char>) -> bool {
    match definition(constraint_definition(id, c)) {
        Some((_, _, Ok(p))) => expr_is(e, p),
        _ => e matches Expression::Var(n) && n@ == id,
    }
}

fn dsl_word_x(w: &str) -> (r: &str)
    ensures
        r@ == dsl_word(w@),
{
    if str_eq(w, "AND") {
        "&&"
    } else if str_eq(w, "OR") {
        "||"
    } else {
        w
    }
}

/// Compiles a built-in constraint written with `AND`/`OR` into an
/// expression, falling back to the variable `id` if it does not parse.
pub fn compile_constraint(id: &str, constraint: &str) -> (r: Expression)
    ensures
        compiled_is(r, id@, constraint@),
{
    let words = split_whitespace(constraint);
    let mut normalized = String::new();
    let mut i: usize = 0;
    let ghost mapped = words_of(constraint@).map_values(|w: Seq<char>| dsl_word(w));
    assert(mapped.subrange(0, 0) =~= Seq::<Seq<char>>::empty());
    while i < words.len()
        invariant
            i <= words.len(),
            string_views(words@) == words_of(constraint@),
            mapped == words_of(constraint@).map_values(|w: Seq<char>| dsl_word(w)),
            normalized@ == joined(mapped.subrange(0, i as int), " "@),
        decreases words.len() - i,
    {
        if i > 0 {
            push_str(&mut normalized, " ");
        }
        push_str(&mut normalized, dsl_word_x(words[i].as_str()));
        proof {
            let sub = mapped.subrange(0, i + 1);
            assert(sub.drop_last() =~= mapped.subrange(0, i as int));
            assert(sub.last() == dsl_word(words@[i as int]@));
            if i == 0 {
                assert(normalized@ =~= sub[0]);
            } else {
                assert(normalized@ =~= joined(mapped.subrange(0, i as int), " "@) + " "@ + sub.last());
            }
        }
        i = i + 1;
    }
    assert(mapped.subrange(0, words.len() as int) =~= mapped);
    let mut full = string_from("invariant ");
    push_str(&mut full, id);
    push_str(&mut full, " { ");
    push_str(&mut full, normalized.as_str());
    push_str(&mut full, " }");
    match parse_invariant(full.as_str()) {
        Ok(inv) => inv.expression,
        Err(_) => Expression::Var(string_from(id)),
    }
}

/// The built-in invariants of one chain: the category they are filed under,
/// the prefix of their descriptions, their category field, layers and
/// phases, and their (id, name, constraint) entries.
pub struct ChainDefaults {
    pub key: Seq<char>,
    pub prefix: Seq<char>,
    pub category: Seq<char>,
    pub layers: Seq<Seq<char>>,
    pub phases: Seq<Seq<char>>,
    pub entries: Seq<(Seq<char>, Seq<char>, Seq<char>)>,
}

/// `inv` is the built-in invariant of entry `e` of chain `d`.
pub open spec fn default_is(inv: Invariant, d: ChainDefaults, e: (Seq<char>, Seq<char>, Seq<char>)) -> bool {
    &&& inv.name@ == e.0
    &&& inv.description matches Some(s) && s@ == d.prefix + e.1
    &&& compiled_is(inv.expression, e.0, e.2)
    &&& inv.severity@ == "high"@
    &&& inv.category@ == d.category
    &&& inv.is_always_true
    &&& string_views(inv.layers@) == d.layers
    &&& string_views(inv.phases@) == d.phases
}

/// The invariants of a category are the built-in ones of `d`, in order.
pub open spec fn defaults_are(invs: Seq<Invariant>, d: ChainDefaults) -> bool {
    &&& invs.len() == d.entries.len()
    &&& forall|i: int| 0 <= i < invs.len() ==> default_is(#[trigger] invs[i], d, d.entries[i])
}

/// The built-in EVM invariants.
pub open spec fn evm_defaults() -> ChainDefaults {
    ChainDefaults {
        key: "EVM"@,
        prefix: "EVM invariant: "@,
        category: "evm"@,
        layers: seq!["control_flow"@, "data_flow"@],
        phases: seq!["execution"@, "finalization"@],
        entries: seq![
            ("evm_reentrancy_protection"@, "Reentrancy Protection"@, "call_order_respected AND no_recursive_calls"@),
            ("evm_integer_overflow"@, "Integer Overflow"@, "arithmetic_values_bounded AND checked_arithmetic"@),
            ("evm_integer_underflow"@, "Integer Underflow"@, "subtraction_checked AND minimum_value_respected"@),
            ("evm_unchecked_returns"@, "Unchecked Return Values"@, "all_external_calls_checked AND return_validation"@),
            ("evm_delegatecall_injection"@, "Delegatecall Injection"@, "delegatecall_target_whitelist AND no_user_delegatecall"@),
            ("evm_access_control"@, "Access Control"@, "caller_authentication AND permission_respected"@),
            ("evm_timestamp_dependence"@, "Timestamp Dependence"@, "no_timestamp_for_security AND block_properties_consistent"@),
            ("evm_frontrunning"@, "Front-running"@, "state_order_independent AND tx_ordering_irrelevant"@),
            ("evm_uninitialized_pointers"@, "Uninitialized Pointers"@, "memory_initialized_before_use AND storage_initialized"@),
            ("evm_division_by_zero"@, "Division by Zero"@, "divisor_nonzero AND modulo_nonzero"@),
        ],
    }
}

fn evm_table() -> (r: Vec<(&'static str, &'static str, &'static str)>)
    ensures
        entry_views(r@) == evm_defaults().entries,
{
    let v = vec![
            ("evm_reentrancy_protection", "Reentrancy Protection", "call_order_respected AND no_recursive_calls"),
            ("evm_integer_overflow", "Integer Overflow", "arithmetic_values_bounded AND checked_arithmetic"),
            ("evm_integer_underflow", "Integer Underflow", "subtraction_checked AND minimum_value_respected"),
            ("evm_unchecked_returns", "Unchecked Return Values", "all_external_calls_checked AND return_validation"),
            ("evm_delegatecall_injection", "Delegatecall Injection", "delegatecall_target_whitelist AND no_user_delegatecall"),
            ("evm_access_control", "Access Control", "caller_authentication AND permission_respected"),
            ("evm_timestamp_dependence", "Timestamp Dependence", "no_timestamp_for_security AND block_properties_consistent"),
            ("evm_frontrunning", "Front-running", "state_order_independent AND tx_ordering_irrelevant"),
            ("evm_uninitialized_pointers", "Uninitialized Pointers", "memory_initialized_before_use AND storage_initialized"),
            ("evm_division_by_zero", "Division by Zero", "divisor_nonzero AND modulo_nonzero"),
    ];
    assert(entry_views(v@) =~= evm_defaults().entries);
    v
}

/// The built-in Solana invariants.
pub open spec fn solana_defaults() -> ChainDefaults {
    ChainDefaults {
        key: "Solana"@,
        prefix: "Solana invariant: "@,
        category: "solana"@,
        layers: seq!["account_layer"@, "instruction_layer"@],
        phases: seq!["parsing"@, "execution"@],
        entries: seq![
            ("sol_signer_checks"@, "Signer Checks"@, "all_required_signers_present AND signatures_valid"@),
            ("sol_account_validation"@, "Account Validation"@, "expected_accounts_provided AND account_state_valid"@),
            ("sol_integer_overflow"@, "Integer Overflow"@, "arithmetic_checked AND values_within_bounds"@),
            ("sol_rent_exemption"@, "Rent Exemption"@, "rent_paid_or_exempt AND account_cleanup_proper"@),
            ("sol_pda_derivation"@, "PDA Derivation"@, "pda_seeds_deterministic AND derivation_consistent"@),
            ("sol_lamport_balance"@, "Lamport Balance"@, "lamports_conserved AND no_lamport_leaks"@),
            ("sol_instruction_parsing"@, "Instruction Parsing"@, "instruction_data_valid AND account_order_correct"@),
        ],
    }
}

fn solana_table() -> (r: Vec<(&'static str, &'static str, &'static str)>)
    ensures
        entry_views(r@) == solana_defaults().entries,
{
    let v = vec![
            ("sol_signer_checks", "Signer Checks", "all_required_signers_present AND signatures_valid"),
            ("sol_account_validation", "Account Validation", "expected_accounts_provided AND account_state_valid"),
            ("sol_integer_overflow", "Integer Overflow", "arithmetic_checked AND values_within_bounds"),
            ("sol_rent_exemption", "Rent Exemption", "rent_paid_or_exempt AND account_cleanup_proper"),
            ("sol_pda_derivation", "PDA Derivation", "pda_seeds_deterministic AND derivation_consistent"),
            ("sol_lamport_balance", "Lamport Balance", "lamports_conserved AND no_lamport_leaks"),
            ("sol_instruction_parsing", "Instruction Parsing", "instruction_data_valid AND account_order_correct"),
    ];
    assert(entry_views(v@) =~= solana_defaults().entries);
    v
}

/// The built-in Move invariants.
pub open spec fn move_defaults() -> ChainDefaults {
    ChainDefaults {
        key: "Move"@,
        prefix: "Move invariant: "@,
        category: "move"@,
        layers: seq!["module_layer"@, "transaction_layer"@],
        phases: seq!["execution"@],
        entries: seq![
            ("move_access_control"@, "Access Control"@, "caller_has_required_capability AND resource_protected"@),
            ("move_integer_overflow"@, "Integer Overflow"@, "addition_checked AND values_bounded"@),
            ("move_resource_leaks"@, "Resource Leaks"@, "all_resources_returned AND no_abort_without_cleanup"@),
            ("move_type_safety"@, "Type Safety"@, "types_match_at_boundaries AND resources_typed"@),
            ("move_signer_requirement"@, "Signer Requirement"@, "signer_passed_and_verified AND signer_not_optional"@),
        ],
    }
}

fn move_table() -> (r: Vec<(&'static str, &'static str, &'static str)>)
    ensures
        entry_views(r@) == move_defaults().entries,
{
    let v = vec![
            ("move_access_control", "Access Control", "caller_has_required_capability AND resource_protected"),
            ("move_integer_overflow", "Integer Overflow", "addition_checked AND values_bounded"),
            ("move_resource_leaks", "Resource Leaks", "all_resources_returned AND no_abort_without_cleanup"),
            ("move_type_safety", "Type Safety", "types_match_at_boundaries AND resources_typed"),
            ("move_signer_requirement", "Signer Requirement", "signer_passed_and_verified AND signer_not_optional"),
    ];
    assert(entry_views(v@) =~= move_defaults().entries);
    v
}

/// The built-in Soroban invariants.
pub open spec fn soroban_defaults() -> ChainDefaults {
    ChainDefaults {
        key: "Soroban"@,
        prefix: "Soroban invariant: "@,
        category: "soroban"@,
        layers: seq!["contract_layer"@, "storage_layer"@],
        phases: seq!["parsing"@, "execution"@],
        entries: seq![
            ("sor_require_auth_checks"@, "Require-Auth Checks"@, "privileged_functions_require_auth AND auth_address_matches_actor"@),
            ("sor_no_unprotected_upgrade"@, "Protected Upgrade"@, "upgrade_requires_auth AND upgrade_target_verified"@),
            ("sor_init_guard"@, "Initializer Guard"@, "initialize_checks_not_already_set AND admin_set_exactly_once"@),
            ("sor_checked_arithmetic"@, "Checked Arithmetic"@, "arithmetic_uses_checked_ops AND values_within_bounds"@),
            ("sor_storage_ttl_extended"@, "Storage TTL Extended"@, "persistent_entries_ttl_extended AND no_unexpected_archival"@),
            ("sor_no_reentrancy"@, "No Reentrancy"@, "state_written_before_external_call AND checks_effects_interactions_respected"@),
        ],
    }
}

fn soroban_table() -> (r: Vec<(&'static str, &'static str, &'static str)>)
    ensures
        entry_views(r@) == soroban_defaults().entries,
{
    let v = vec![
            ("sor_require_auth_checks", "Require-Auth Checks", "privileged_functions_require_auth AND auth_address_matches_actor"),
            ("sor_no_unprotected_upgrade", "Protected Upgrade", "upgrade_requires_auth AND upgrade_target_verified"),
            ("sor_init_guard", "Initializer Guard", "initialize_checks_not_already_set AND admin_set_exactly_once"),
            ("sor_checked_arithmetic", "Checked Arithmetic", "arithmetic_uses_checked_ops AND values_within_bounds"),
            ("sor_storage_ttl_extended", "Storage TTL Extended", "persistent_entries_ttl_extended AND no_unexpected_archival"),
            ("sor_no_reentrancy", "No Reentrancy", "state_written_before_external_call AND checks_effects_interactions_respected"),
    ];
    assert(entry_views(v@) =~= soroban_defaults().entries);
    v
}

/// The contents of (id, name, constraint) string triples.
pub open spec fn entry_views(v: Seq<(&str, &str, &str)>) -> Seq<(Seq<char>, Seq<char>, Seq<char>)> {
    v.map_values(|e: (&str, &str, &str)| (e.0@, e.1@, e.2@))
}

/// The built-in invariants of a chain, by its lower-case name.
pub open spec fn chain_defaults(c: Seq<char>) -> Option<ChainDefaults> {
    if c == "evm"@ {
        Some(evm_defaults())
    } else if c == "solana"@ {
        Some(solana_defaults())
    } else if c == "move"@ {
        Some(move_defaults())
    } else if c == "soroban"@ {
        Some(soroban_defaults())
    } else {
        None
    }
}

/// The invariants of all categories, category by category in ascending
/// name order, each category's in the order they were added.
pub open spec fn all_of(pairs: Seq<(Seq<char>, Vec<Invariant>)>) -> Seq<Invariant>
    decreases pairs.len(),
{
    if pairs.len() == 0 {
        Seq::empty()
    } else {
        all_of(pairs.drop_last()) + pairs.last().1@
    }
}

/// Fresh strings with the contents of `items`.
fn strings_of(items: &[&str]) -> (r: Vec<String>)
    ensures
        string_views(r@) == str_views(items@),
{
    let mut out: Vec<String> = Vec::new();
    let mut i: usize = 0;
    while i < items.len()
        invariant
            i <= items.len(),
            out@.len() == i,
            forall|j: int| 0 <= j < i ==> #[trigger] out@[j]@ == items@[j]@,
        decreases items.len() - i,
    {
        out.push(string_from(items[i]));
        i = i + 1;
    }
    assert(string_views(out@) =~= str_views(items@));
    out
}

/// A collection of invariants organized by category.
pub struct InvariantLibrary {
    /// Invariants by category.
    pub categories: StrMap<Vec<Invariant>>,
}

impl InvariantLibrary {
    /// An empty library.
    pub fn new() -> (r: Self)
        ensures
            r.categories@ == Map::<Seq<char>, Vec<Invariant>>::empty(),
    {
        InvariantLibrary { categories: StrMap::new() }
    }

    /// A library holding the built-in invariants of `chain` (matched
    /// without regard to case): `evm`, `solana`, `move` or `soroban`; empty
    /// for any other chain.
    pub fn with_defaults(chain: &str) -> (r: Self)
        ensures
            match chain_defaults(unicode_lowercase(chain@)) {
                Some(d) => r.categories@.dom() == set![d.key] && defaults_are(
                    r.categories@[d.key]@,
                    d,
                ),
                None => r.categories@ == Map::<Seq<char>, Vec<Invariant>>::empty(),
            },
    {
        let mut lib = Self::new();
        lib.add_defaults(chain);
        lib
    }

    /// Adds the built-in invariants of `chain` to an empty library.
    fn add_defaults(&mut self, chain: &str)
        requires
            old(self).categories@ == Map::<Seq<char>, Vec<Invariant>>::empty(),
        ensures
            match chain_defaults(unicode_lowercase(chain@)) {
                Some(d) => final(self).categories@.dom() == set![d.key] && defaults_are(
                    final(self).categories@[d.key]@,
                    d,
                ),
                None => final(self).categories@ == Map::<Seq<char>, Vec<Invariant>>::empty(),
            },
    {
        let lower = to_lowercase(chain);
        if str_eq(lower.as_str(), "evm") {
            self.add_evm_defaults();
        } else if str_eq(lower.as_str(), "solana") {
            self.add_solana_defaults();
        } else if str_eq(lower.as_str(), "move") {
            self.add_move_defaults();
        } else if str_eq(lower.as_str(), "soroban") {
            self.add_soroban_defaults();
        }
    }

    /// Files each entry of `table`, compiled, under `key` of an empty
    /// library.
    fn add_chain(
        &mut self,
        key: &str,
        prefix: &str,
        category: &str,
        layers: &[&str],
        phases: &[&str],
        table: Vec<(&'static str, &'static str, &'static str)>,
    )
        requires
            old(self).categories@ == Map::<Seq<char>, Vec<Invariant>>::empty(),
            table@.len() > 0,
        ensures
            final(self).categories@.dom() == set![key@],
            defaults_are(
                final(self).categories@[key@]@,
                ChainDefaults {
                    key: key@,
                    prefix: prefix@,
                    category: category@,
                    layers: str_views(layers@),
                    phases: str_views(phases@),
                    entries: entry_views(table@),
                },
            ),
    {
        let ghost d = ChainDefaults {
            key: key@,
            prefix: prefix@,
            category: category@,
            layers: str_views(layers@),
            phases: str_views(phases@),
            entries: entry_views(table@),
        };
        let mut i: usize = 0;
        while i < table.len()
            invariant
                i <= table.len(),
                d.entries == entry_views(table@),
                d.key == key@ && d.prefix == prefix@ && d.category == category@,
                d.layers == str_views(layers@) && d.phases == str_views(phases@),
                i == 0 ==> self.categories@ == Map::<Seq<char>, Vec<Invariant>>::empty(),
                i > 0 ==> self.categories@.dom() == set![key@],
                i > 0 ==> self.categories@[key@]@.len() == i,
                i > 0 ==> forall|j: int|
                    0 <= j < i ==> default_is(
                        #[trigger] self.categories@[key@]@[j],
                        d,
                        d.entries[j],
                    ),
            decreases table.len() - i,
        {
            let (id, name, constraint) = table[i];
            let mut description = string_from(prefix);
            push_str(&mut description, name);
            let inv = Invariant {
                name: string_from(id),
                description: Some(description),
                expression: compile_constraint(id, constraint),
                severity: string_from("high"),
                category: string_from(category),
                is_always_true: true,
                layers: strings_of(layers),
                phases: strings_of(phases),
            };
            assert(default_is(inv, d, d.entries[i as int]));
            let ghost before = self.categories@;
            self.add(string_from(key), inv);
            proof {
                if i == 0 {
                    assert(self.categories@.dom() =~= set![key@]);
                } else {
                    assert(self.categories@.dom() =~= set![key@]);
                    assert forall|j: int| 0 <= j < i + 1 implies default_is(
                        #[trigger] self.categories@[key@]@[j],
                        d,
                        d.entries[j],
                    ) by {
                        if j < i {
                            assert(self.categories@[key@]@[j] == before[key@]@[j]);
                        }
                    }
                }
            }
            i = i + 1;
        }
        assert(d.entries.len() == table@.len());
    }

    /// Adds the built-in EVM invariants to an empty library.
    fn add_evm_defaults(&mut self)
        requires
            old(self).categories@ == Map::<Seq<char>, Vec<Invariant>>::empty(),
        ensures
            final(self).categories@.dom() == set![evm_defaults().key],
            defaults_are(final(self).categories@[evm_defaults().key]@, evm_defaults()),
    {
        let layers: [&str; 2] = ["control_flow", "data_flow"];
        let phases: [&str; 2] = ["execution", "finalization"];
        let table = evm_table();
        assert(entry_views(table@).len() == table@.len());
        assert(evm_defaults().entries.len() > 0);
        assert(str_views(layers@) =~= evm_defaults().layers);
        assert(str_views(phases@) =~= evm_defaults().phases);
        self.add_chain("EVM", "EVM invariant: ", "evm", &layers, &phases, table);
    }

    /// Adds the built-in Solana invariants to an empty library.
    fn add_solana_defaults(&mut self)
        requires
            old(self).categories@ == Map::<Seq<char>, Vec<Invariant>>::empty(),
        ensures
            final(self).categories@.dom() == set![solana_defaults().key],
            defaults_are(final(self).categories@[solana_defaults().key]@, solana_defaults()),
    {
        let layers: [&str; 2] = ["account_layer", "instruction_layer"];
        let phases: [&str; 2] = ["parsing", "execution"];
        let table = solana_table();
        assert(entry_views(table@).len() == table@.len());
        assert(solana_defaults().entries.len() > 0);
        assert(str_views(layers@) =~= solana_defaults().layers);
        assert(str_views(phases@) =~= solana_defaults().phases);
        self.add_chain("Solana", "Solana invariant: ", "solana", &layers, &phases, table);
    }

    /// Adds the built-in Move invariants to an empty library.
    fn add_move_defaults(&mut self)
        requires
            old(self).categories@ == Map::<Seq<char>, Vec<Invariant>>::empty(),
        ensures
            final(self).categories@.dom() == set![move_defaults().key],
            defaults_are(final(self).categories@[move_defaults().key]@, move_defaults()),
    {
        let layers: [&str; 2] = ["module_layer", "transaction_layer"];
        let phases: [&str; 1] = ["execution"];
        let table = move_table();
        assert(entry_views(table@).len() == table@.len());
        assert(move_defaults().entries.len() > 0);
        assert(str_views(layers@) =~= move_defaults().layers);
        assert(str_views(phases@) =~= move_defaults().phases);
        self.add_chain("Move", "Move invariant: ", "move", &layers, &phases, table);
    }

    /// Adds the built-in Soroban invariants to an empty library.
    fn add_soroban_defaults(&mut self)
        requires
            old(self).categories@ == Map::<Seq<char>, Vec<Invariant>>::empty(),
        ensures
            final(self).categories@.dom() == set![soroban_defaults().key],
            defaults_are(final(self).categories@[soroban_defaults().key]@, soroban_defaults()),
    {
        let layers: [&str; 2] = ["contract_layer", "storage_layer"];
        let phases: [&str; 2] = ["parsing", "execution"];
        let table = soroban_table();
        assert(entry_views(table@).len() == table@.len());
        assert(soroban_defaults().entries.len() > 0);
        assert(str_views(layers@) =~= soroban_defaults().layers);
        assert(str_views(phases@) =~= soroban_defaults().phases);
        self.add_chain("Soroban", "Soroban invariant: ", "soroban", &layers, &phases, table);
    }

    /// Adds an invariant to the end of a category, starting the category if
    /// it has none.
    pub fn add(&mut self, category: String, inv: Invariant)
        ensures
            final(self).categories@.dom() == old(self).categories@.dom().insert(category@),
            final(self).categories@[category@]@ == (if old(self).categories@.contains_key(
                category@,
            ) {
                old(self).categories@[category@]@
            } else {
                Seq::<Invariant>::empty()
            }).push(inv),
            forall|k: Seq<char>|
                k != category@ ==> #[trigger] final(self).categories@.get(k) == old(
                    self,
                ).categories@.get(k),
    {
        self.categories.push_to(category, inv);
    }

    /// The invariants of a category, if it has any entry.
    pub fn get_category(&self, category: &str) -> (r: Option<&[Invariant]>)
        ensures
            r is Some <==> self.categories@.contains_key(category@),
            r matches Some(s) ==> s@ == self.categories@[category@]@,
    {
        match self.categories.get(category) {
            Some(v) => Some(v.as_slice()),
            None => None,
        }
    }

    /// All invariants: category by category in ascending name order, each
    /// category's in the order they were added.
    pub fn all(&self) -> (r: Vec<&Invariant>)
        ensures
            r@.len() == all_of(self.categories.pairs()).len(),
            forall|i: int| 0 <= i < r@.len() ==> *(#[trigger] r@[i]) == all_of(
                self.categories.pairs(),
            )[i],
    {
        let n = self.categories.len();
        let mut out: Vec<&Invariant> = Vec::new();
        let mut i: usize = 0;
        let ghost pairs = self.categories.pairs();
        while i < n
            invariant
                i <= n,
                n == pairs.len(),
                pairs == self.categories.pairs(),
                out@.len() == all_of(pairs.subrange(0, i as int)).len(),
                forall|k: int|
                    0 <= k < out@.len() ==> *(#[trigger] out@[k]) == all_of(
                        pairs.subrange(0, i as int),
                    )[k],
            decreases n - i,
        {
            let v = self.categories.value_at(i);
            let ghost base = all_of(pairs.subrange(0, i as int));
            let mut j: usize = 0;
            while j < v.len()
                invariant
                    j <= v.len(),
                    out@.len() == base.len() + j,
                    forall|k: int| 0 <= k < base.len() ==> *(#[trigger] out@[k]) == base[k],
                    forall|k: int|
                        base.len() <= k < out@.len() ==> *(#[trigger] out@[k]) == v@[k
                            - base.len()],
                decreases v.len() - j,
            {
                out.push(&v[j]);
                j = j + 1;
            }
            proof {
                let sub = pairs.subrange(0, i + 1);
                assert(sub.drop_last() =~= pairs.subrange(0, i as int));
                assert(sub.last() == pairs[i as int]);
                let full = all_of(sub);
                assert(full == base + v@);
                assert forall|k: int| 0 <= k < out@.len() implies *(#[trigger] out@[k]) == full[k] by {
                    if k < base.len() {
                        assert(full[k] == base[k]);
                    } else {
                        assert(full[k] == v@[k - base.len()]);
                    }
                }
            }
            i = i + 1;
        }
        assert(pairs.subrange(0, n as int) =~= pairs);
        out
    }

    /// The number of invariants in all categories.
    pub fn count(&self) -> (r: usize)
        requires
            all_of(self.categories.pairs()).len() <= usize::MAX,
        ensures
            r == all_of(self.categories.pairs()).len(),
    {
        let n = self.categories.len();
        let ghost pairs = self.categories.pairs();
        let mut total: usize = 0;
        let mut i: usize = 0;
        while i < n
            invariant
                i <= n,
                n == pairs.len(),
                pairs == self.categories.pairs(),
                all_of(pairs).len() <= usize::MAX,
                total == all_of(pairs.subrange(0, i as int)).len(),
            decreases n - i,
        {
            proof {
                let sub = pairs.subrange(0, i + 1);
                assert(sub.drop_last() =~= pairs.subrange(0, i as int));
                lemma_all_of_prefix(pairs, i + 1);
            }
            total = total + self.categories.value_at(i).len();
            i = i + 1;
        }
        assert(pairs.subrange(0, n as int) =~= pairs);
        total
    }
}

/// A prefix of the categories holds no more invariants than all of them.
pub proof fn lemma_all_of_prefix(pairs: Seq<(Seq<char>, Vec<Invariant>)>, k: int)
    requires
        0 <= k <= pairs.len(),
    ensures
        all_of(pairs.subrange(0, k)).len() <= all_of(pairs).len(),
    decreases pairs.len(),
{
    if k < pairs.len() {
        assert(pairs.drop_last().subrange(0, k) =~= pairs.subrange(0, k));
        lemma_all_of_prefix(pairs.drop_last(), k);
    } else {
        assert(pairs.subrange(0, k) =~= pairs);
    }
}

impl Default for InvariantLibrary {
    /// An empty library.
    fn default() -> (r: Self)
        ensures
            r.categories@ == Map::<Seq<char>, Vec<Invariant>>::empty(),
    {
        Self::new()
    }
}


/// What the loader reads of one entry of a file's `invariants` array: whether
/// it is a table, and each of its string fields that is present.
#[derive(Debug, Clone)]
pub struct InvariantEntry {
    /// Whether the entry is a table.
    pub is_table: bool,
    /// The `name` field.
    pub name: Option<String>,
    /// The `expression` field.
    pub expression: Option<String>,
    /// The `severity` field.
    pub severity: Option<String>,
    /// The `category` field.
    pub category: Option<String>,
    /// The `description` field.
    pub description: Option<String>,
}

/// The definition an entry's name and expression are parsed as.
pub open spec fn entry_definition(name: Seq<char>, expression: Seq<char>) -> Seq<char> {
    "invariant "@ + name + " { "@ + expression + " }"@
}

/// `x` is the configuration error with message `m`.
pub open spec fn config_error_is(x: InvarError, m: Seq<char>) -> bool {
    x matches InvarError::ConfigError(t) && t@ == m
}

/// What reading an entry yields: the errors for a missing table, name or
/// expression; else what parsing its definition yields, with the entry's
/// severity (default `medium`), category (default `general`) and, if it has
/// one, description.
pub open spec fn entry_outcome_is(e: InvariantEntry, r: Result<Invariant, InvarError>) -> bool {
    if !e.is_table {
        r matches Err(x) && config_error_is(x, "Invariant must be a table"@)
    } else if e.name is None {
        r matches Err(x) && config_error_is(x, "Invariant must have a 'name' field"@)
    } else if e.expression is None {
        r matches Err(x) && config_error_is(x, "Invariant must have an 'expression' field"@)
    } else {
        let text = entry_definition(e.name->0@, e.expression->0@);
        match definition(text) {
            Some((name, layers, Ok(p))) => r matches Ok(inv) && inv.name@ == name && string_views(
                inv.layers@,
            ) == layers && expr_is(inv.expression, p) && inv.is_always_true
                && inv.phases@.len() == 0 && inv.severity@ == (match e.severity {
                Some(s) => s@,
                None => "medium"@,
            }) && inv.category@ == (match e.category {
                Some(c) => c@,
                None => "general"@,
            }) && (match e.description {
                Some(d) => inv.description matches Some(x) && x@ == d@,
                None => inv.description is None,
            }),
            _ => r is Err && parse_outcome_is(text, r),
        }
    }
}

/// Reads one entry of an invariants file into an invariant, parsing its
/// expression.
pub fn parse_invariant_table(entry: &InvariantEntry) -> (r: Result<Invariant, InvarError>)
    ensures
        entry_outcome_is(*entry, r),
{
    if !entry.is_table {
        return Err(InvarError::ConfigError(string_from("Invariant must be a table")));
    }
    let name = match &entry.name {
        Some(n) => n,
        None => {
            return Err(InvarError::ConfigError(string_from("Invariant must have a 'name' field")));
        },
    };
    let expression = match &entry.expression {
        Some(x) => x,
        None => {
            return Err(
                InvarError::ConfigError(string_from("Invariant must have an 'expression' field")),
            );
        },
    };
    let mut text = string_from("invariant ");
    push_str(&mut text, name.as_str());
    push_str(&mut text, " { ");
    push_str(&mut text, expression.as_str());
    push_str(&mut text, " }");
    let parsed = parse_invariant(text.as_str());
    match parsed {
        Err(x) => Err(x),
        Ok(inv) => {
            let mut inv = inv;
            inv.severity = match &entry.severity {
                Some(s) => string_from(s.as_str()),
                None => string_from("medium"),
            };
            inv.category = match &entry.category {
                Some(c) => string_from(c.as_str()),
                None => string_from("general"),
            };
            match &entry.description {
                Some(d) => {
                    inv.description = Some(string_from(d.as_str()));
                },
                None => {},
            }
            Ok(inv)
        },
    }
}

/// The invariants that the entries yield, in order; entries that yield an
/// error are left out.
pub open spec fn loaded_are(entries: Seq<InvariantEntry>, invs: Seq<Invariant>) -> bool
    decreases entries.len(),
{
    if entries.len() == 0 {
        invs.len() == 0
    } else if exists|inv: Invariant| entry_outcome_is(entries.last(), Ok(inv)) {
        invs.len() > 0 && entry_outcome_is(entries.last(), Ok(invs.last())) && loaded_are(
            entries.drop_last(),
            invs.drop_last(),
        )
    } else {
        loaded_are(entries.drop_last(), invs)
    }
}

/// A text that may be absent, as its characters.
pub open spec fn opt_text(o: Option<String>) -> Option<Seq<char>> {
    match o {
        Some(s) => Some(s@),
        None => None,
    }
}

/// A row of field values, or `None` for an element that is not a table.
pub open spec fn row_view(r: Option<Vec<Option<String>>>) -> Option<Seq<Option<Seq<char>>>> {
    match r {
        Some(v) => Some(v@.map_values(|o: Option<String>| opt_text(o))),
        None => None,
    }
}

/// The rows of a TOML array, or the error message, as characters.
pub open spec fn rows_view(r: Result<Option<Vec<Option<Vec<Option<String>>>>>, String>) -> Result<
    Option<Seq<Option<Seq<Option<Seq<char>>>>>>,
    Seq<char>,
> {
    match r {
        Ok(Some(rows)) => Ok(Some(rows@.map_values(|x: Option<Vec<Option<String>>>| row_view(x)))),
        Ok(None) => Ok(None),
        Err(e) => Err(e@),
    }
}

/// The texts of the keys.
pub open spec fn texts_of(keys: Seq<&str>) -> Seq<Seq<char>> {
    keys.map_values(|k: &str| k@)
}

/// What `toml` reads from the document `text`: for the array under
/// `array_key` (`None` where there is no such array), each element's string
/// values under `keys`, in order (`None` for an element that is not a
/// table, and for a key with no string value); or the parse error's message.
pub uninterp spec fn toml_array_fields(
    text: Seq<char>,
    array_key: Seq<char>,
    keys: Seq<Seq<char>>,
) -> Result<Option<Seq<Option<Seq<Option<Seq<char>>>>>>, Seq<char>>;

/// `toml::from_str` into a `toml::Table`: the string values under `keys` of
/// each element of the array under `array_key`, one per key, or the parse
/// error's message; named by `toml_array_fields`.
#[verifier::external_body]
fn toml_array_rows(text: &str, array_key: &str, keys: &[&str]) -> (r: Result<
    Option<Vec<Option<Vec<Option<String>>>>>,
    String,
>)
    ensures
        rows_view(r) == toml_array_fields(text@, array_key@, texts_of(keys@)),
        r matches Ok(Some(rows)) ==> forall|j: int|
            0 <= j < rows@.len() ==> (#[trigger] rows@[j] matches Some(v) ==> v@.len() == keys@.len()),
{
    let table: toml::Table = toml::from_str(text).map_err(|e| e.to_string())?;
    Ok(table.get(array_key).and_then(|v| v.as_array()).map(|items| {
        items.iter().map(|v| {
            v.as_table().map(|t| keys.iter().map(|k| t.get(*k).and_then(|x| x.as_str()).map(String::from)).collect())
        }).collect()
    }))
}

/// The keys an invariant entry is read from, in the order of its fields.
pub open spec fn entry_keys() -> Seq<Seq<char>> {
    seq!["name"@, "expression"@, "severity"@, "category"@, "description"@]
}

/// `e` is the entry read from a row of values under `entry_keys()`.
pub open spec fn entry_of_row(e: InvariantEntry, row: Option<Seq<Option<Seq<char>>>>) -> bool {
    match row {
        None => !e.is_table && e.name is None && e.expression is None && e.severity is None
            && e.category is None && e.description is None,
        Some(vs) => e.is_table && vs.len() == 5 && opt_text(e.name) == vs[0] && opt_text(
            e.expression,
        ) == vs[1] && opt_text(e.severity) == vs[2] && opt_text(e.category) == vs[3] && opt_text(
            e.description,
        ) == vs[4],
    }
}

/// `invs` are the invariants that the entries read from `rows` define.
pub open spec fn loaded_from_rows(rows: Seq<Option<Seq<Option<Seq<char>>>>>, invs: Seq<Invariant>) -> bool {
    exists|es: Seq<InvariantEntry>|
        #![trigger loaded_are(es, invs)]
        es.len() == rows.len() && (forall|i: int| 0 <= i < es.len() ==> #[trigger] entry_of_row(es[i], rows[i]))
            && loaded_are(es, invs)
}

fn copy_text(o: &Option<String>) -> (r: Option<String>)
    ensures
        opt_text(r) == opt_text(*o),
{
    match o {
        Some(s) => Some(string_from(s.as_str())),
        None => None,
    }
}

fn entry_from_row(row: &Option<Vec<Option<String>>>) -> (r: InvariantEntry)
    requires
        row matches Some(v) ==> v@.len() == 5,
    ensures
        entry_of_row(r, row_view(*row)),
{
    match row {
        Some(v) => InvariantEntry {
            is_table: true,
            name: copy_text(&v[0]),
            expression: copy_text(&v[1]),
            severity: copy_text(&v[2]),
            category: copy_text(&v[3]),
            description: copy_text(&v[4]),
        },
        None => InvariantEntry {
            is_table: false,
            name: None,
            expression: None,
            severity: None,
            category: None,
            description: None,
        },
    }
}

/// Loads invariants from the entries of invariant files.
pub struct LibraryLoader;

impl LibraryLoader {
    /// The invariants an invariants file with the text `text` defines: the
    /// entries of its `invariants` array (none where it has none), read as
    /// `load_entries` reads them; a configuration error with the TOML
    /// parser's message where the text is not a TOML document.
    pub fn load_from_toml_text(text: &str) -> (r: Result<Vec<Invariant>, InvarError>)
        ensures
            match toml_array_fields(text@, "invariants"@, entry_keys()) {
                Err(m) => r matches Err(x) && config_error_is(x, m),
                Ok(None) => r matches Ok(invs) && invs@.len() == 0,
                Ok(Some(rows)) => r matches Ok(invs) && loaded_from_rows(rows, invs@),
            },
    {
        let keys: [&str; 5] = ["name", "expression", "severity", "category", "description"];
        proof {
            reveal_strlit("name");
            reveal_strlit("expression");
            reveal_strlit("severity");
            reveal_strlit("category");
            reveal_strlit("description");
            assert(texts_of(keys@) =~= entry_keys());
        }
        let rows = match toml_array_rows(text, "invariants", &keys) {
            Err(m) => {
                return Err(InvarError::ConfigError(m));
            },
            Ok(None) => {
                return Ok(Vec::new());
            },
            Ok(Some(rows)) => rows,
        };
        let ghost rv = rows@.map_values(|x: Option<Vec<Option<String>>>| row_view(x));
        let mut entries: Vec<InvariantEntry> = Vec::new();
        let mut i: usize = 0;
        while i < rows.len()
            invariant
                i <= rows@.len(),
                rv == rows@.map_values(|x: Option<Vec<Option<String>>>| row_view(x)),
                forall|j: int| 0 <= j < rows@.len() ==> (#[trigger] rows@[j] matches Some(v) ==> v@.len() == 5),
                entries@.len() == i,
                forall|j: int| 0 <= j < i ==> #[trigger] entry_of_row(entries@[j], rv[j]),
            decreases rows.len() - i,
        {
            let e = entry_from_row(&rows[i]);
            entries.push(e);
            i = i + 1;
        }
        let invs = Self::load_entries(&entries);
        proof {
            assert(loaded_are(entries@, invs@));
        }
        Ok(invs)
    }

    /// The invariants the entries of a file's `invariants` array define, in
    /// order, skipping the entries that do not yield one.
    pub fn load_entries(entries: &Vec<InvariantEntry>) -> (r: Vec<Invariant>)
        ensures
            loaded_are(entries@, r@),
    {
        let mut out: Vec<Invariant> = Vec::new();
        let mut i: usize = 0;
        while i < entries.len()
            invariant
                i <= entries.len(),
                loaded_are(entries@.subrange(0, i as int), out@),
            decreases entries.len() - i,
        {
            let res = parse_invariant_table(&entries[i]);
            let ghost sub = entries@.subrange(0, i + 1);
            proof {
                assert(sub.drop_last() =~= entries@.subrange(0, i as int));
                assert(sub.last() == entries@[i as int]);
            }
            match res {
                Ok(inv) => {
                    let ghost before = out@;
                    out.push(inv);
                    proof {
                        assert(out@.drop_last() =~= before);
                        assert(entry_outcome_is(sub.last(), Ok(out@.last())));
                    }
                },
                Err(x) => {
                    proof {
                        assert forall|inv: Invariant| !entry_outcome_is(sub.last(), Ok(inv)) by {
                            lemma_entry_outcome_unique(sub.last(), Err(x), Ok(inv));
                        }
                    }
                },
            }
            i = i + 1;
        }
        assert(entries@.subrange(0, entries@.len() as int) =~= entries@);
        out
    }
}

/// An entry yields an invariant or an error, never both.
proof fn lemma_entry_outcome_unique(
    e: InvariantEntry,
    a: Result<Invariant, InvarError>,
    b: Result<Invariant, InvarError>,
)
    requires
        entry_outcome_is(e, a),
        a is Err,
        b is Ok,
    ensures
        !entry_outcome_is(e, b),
{
}

} // verus!
