//! The dynamic engine's chain-agnostic pieces: the description of callable
//! functions and calls, the backend a chain provides, the search
//! parameters, and the helpers that bind DSL properties to contract reads.
use vstd::prelude::*;
use crate::strmap::{StrMap, sort_strings, string_views, text_order, lemma_text_le_total};
use crate::text::{dec_digits, int_text, joined, join_strings, push_i128, push_str, push_u128, string_from};

verus! {

/// The type of one parameter of a callable function: fixed-width types only.
#[derive(Debug, Clone, Copy, PartialEq, Eq, Structural)]
pub enum ParamKind {
    Uint256,
    Address,
    Bool,
    Bytes32,
}

/// One callable entry point of a deployed contract: its selector, argument
/// shape, and whether calling it can change state.
#[derive(Debug)]
pub struct FunctionSpec {
    /// Function name.
    pub name: String,
    /// Four-byte selector.
    pub selector: [u8; 4],
    /// Parameter types.
    pub inputs: Vec<ParamKind>,
    /// Whether calling it can change state.
    pub mutates_state: bool,
    /// Whether it accepts value.
    pub payable: bool,
}

/// `a` and `b` describe the same function.
pub open spec fn same_function(a: FunctionSpec, b: FunctionSpec) -> bool {
    &&& a.name@ == b.name@
    &&& a.selector == b.selector
    &&& a.inputs@ == b.inputs@
    &&& a.mutates_state == b.mutates_state
    &&& a.payable == b.payable
}

impl Clone for FunctionSpec {
    fn clone(&self) -> (r: Self)
        ensures
            same_function(r, *self),
    {
        let mut inputs: Vec<ParamKind> = Vec::new();
        let mut i: usize = 0;
        while i < self.inputs.len()
            invariant
                i <= self.inputs.len(),
                inputs@ == self.inputs@.subrange(0, i as int),
            decreases self.inputs.len() - i,
        {
            inputs.push(self.inputs[i]);
            i = i + 1;
            assert(inputs@ =~= self.inputs@.subrange(0, i as int));
        }
        assert(inputs@ =~= self.inputs@);
        FunctionSpec {
            name: self.name.clone(),
            selector: self.selector,
            inputs,
            mutates_state: self.mutates_state,
            payable: self.payable,
        }
    }
}

impl FunctionSpec {
    /// A function that does not accept value.
    pub fn new(name: &str, selector: [u8; 4], inputs: Vec<ParamKind>, mutates_state: bool) -> (r:
        Self)
        ensures
            r.name@ == name@,
            r.selector == selector,
            r.inputs == inputs,
            r.mutates_state == mutates_state,
            !r.payable,
    {
        FunctionSpec { name: string_from(name), selector, inputs, mutates_state, payable: false }
    }
}

/// A call ready to execute: encoded calldata, caller and value.
#[derive(Debug, Clone)]
pub struct EncodedCall {
    /// The function called.
    pub function: FunctionSpec,
    /// ABI-encoded calldata.
    pub calldata: Vec<u8>,
    /// Caller address.
    pub caller: [u8; 20],
    /// Value attached.
    pub value: u128,
}

/// The result of executing one call.
#[derive(Debug, Clone)]
pub struct CallOutcome {
    /// Whether the call reverted.
    pub reverted: bool,
    /// Returned bytes.
    pub return_data: Vec<u8>,
}

/// A deployed contract instance that can be called and whose state can be
/// saved and restored; each chain provides one.
pub trait ExecutionBackend {
    /// Executes one call against the current state, changing it.
    fn call(&mut self, call: &EncodedCall) -> CallOutcome;

    /// Saves the current state and returns an id to restore it by.
    fn snapshot(&mut self) -> u64;

    /// Restores a state saved by `snapshot`.
    fn revert_to(&mut self, snapshot: u64);
}

/// Search parameters for a fuzzing run; the seed makes runs reproducible.
#[derive(Debug, Clone)]
pub struct FuzzConfig {
    /// Random seed.
    pub seed: u64,
    /// Sequences to try.
    pub max_runs: usize,
    /// Calls per sequence.
    pub sequence_depth: usize,
    /// Caller addresses.
    pub actors: Vec<[u8; 20]>,
}

impl Default for FuzzConfig {
    /// Seed 0, 500 runs of 12 calls, no actors.
    fn default() -> (r: Self)
        ensures
            r.seed == 0,
            r.max_runs == 500,
            r.sequence_depth == 12,
            r.actors@.len() == 0,
    {
        FuzzConfig { seed: 0, max_runs: 500, sequence_depth: 12, actors: Vec::new() }
    }
}

/// A place in a DSL expression that needs a value read from the chain.
#[derive(Debug)]
pub enum Site {
    /// A zero-argument getter.
    Var(String),
    /// A getter called with constant arguments.
    Call { name: String, args: Vec<i128> },
}

/// What a site is: the variable, or the getter's name and its arguments.
pub enum SiteModel {
    /// A zero-argument getter, by name.
    Var(Seq<char>),
    /// A getter called with constant arguments.
    Call(Seq<char>, Seq<i128>),
}

impl View for Site {
    type V = SiteModel;

    open spec fn view(&self) -> SiteModel {
        match self {
            Site::Var(n) => SiteModel::Var(n@),
            Site::Call { name, args } => SiteModel::Call(name@, args@),
        }
    }
}

impl Clone for Site {
    fn clone(&self) -> (r: Self)
        ensures
            r@ == self@,
    {
        match self {
            Site::Var(n) => Site::Var(n.clone()),
            Site::Call { name, args } => {
                let a = args.clone();
                assert(a@ =~= args@);
                Site::Call { name: name.clone(), args: a }
            },
        }
    }
}

/// The canonical text of a site: the variable, or `name(a,b,...)`.
pub open spec fn model_key(s: SiteModel) -> Seq<char> {
    match s {
        SiteModel::Var(n) => n,
        SiteModel::Call(name, args) => name + "("@ + joined(
            args.map_values(|a: i128| int_text(a as int)),
            ","@,
        ) + ")"@,
    }
}

/// The canonical text of a site.
pub open spec fn site_key(s: Site) -> Seq<char> {
    model_key(s@)
}

impl Site {
    /// The canonical text, used to deduplicate and as the evaluator's name.
    pub fn key(&self) -> (r: String)
        ensures
            r@ == site_key(*self),
    {
        match self {
            Site::Var(n) => string_from(n.as_str()),
            Site::Call { name, args } => {
                let mut texts: Vec<String> = Vec::new();
                let mut i: usize = 0;
                while i < args.len()
                    invariant
                        i <= args.len(),
                        texts@.len() == i,
                        forall|j: int| 0 <= j < i ==> #[trigger] texts@[j]@ == int_text(args@[j] as int),
                    decreases args.len() - i,
                {
                    let mut t = String::new();
                    push_i128(&mut t, args[i]);
                    texts.push(t);
                    i = i + 1;
                }
                let list = join_strings(texts.as_slice(), ",");
                let mut out = string_from(name.as_str());
                push_str(&mut out, "(");
                push_str(&mut out, list.as_str());
                push_str(&mut out, ")");
                proof {
                    assert(texts@.map_values(|s: String| s@) =~= args@.map_values(
                        |a: i128| int_text(a as int),
                    ));
                }
                out
            },
        }
    }
}

/// What `char::to_lowercase` yields for a character, collected.
pub uninterp spec fn char_lowercase(c: char) -> Seq<char>;

/// `char::to_lowercase`, collected into a string.
#[verifier::external_body]
fn lowercase_char(c: char) -> (r: String)
    ensures
        r@ == char_lowercase(c),
{
    c.to_lowercase().collect::<String>()
}

/// A name with underscores dropped and every character lowercased.
pub open spec fn normalised(s: Seq<char>) -> Seq<char>
    decreases s.len(),
{
    if s.len() == 0 {
        Seq::empty()
    } else {
        normalised(s.drop_last()) + (if s.last() == '_' {
            Seq::empty()
        } else {
            char_lowercase(s.last())
        })
    }
}

/// The name as getters are matched by: no underscores, lower case, so that
/// `total_supply` matches `totalSupply`.
pub fn normalise(name: &str) -> (r: String)
    ensures
        r@ == normalised(name@),
{
    let cs = crate::text::chars_of(name);
    let mut out = String::new();
    let mut i: usize = 0;
    assert(cs@.subrange(0, 0) =~= Seq::<char>::empty());
    while i < cs.len()
        invariant
            i <= cs.len(),
            cs@ == name@,
            out@ == normalised(cs@.subrange(0, i as int)),
        decreases cs.len() - i,
    {
        let c = cs[i];
        if c != '_' {
            let l = lowercase_char(c);
            push_str(&mut out, l.as_str());
        }
        proof {
            let sub = cs@.subrange(0, i as int + 1);
            assert(sub.drop_last() =~= cs@.subrange(0, i as int));
            assert(sub.last() == c);
        }
        i = i + 1;
    }
    assert(cs@.subrange(0, cs@.len() as int) =~= cs@);
    out
}

/// The number the bytes spell in big-endian order.
pub open spec fn be_value(s: Seq<u8>) -> nat
    decreases s.len(),
{
    if s.len() == 0 {
        0
    } else {
        (be_value(s.drop_last()) * 256 + s.last()) as nat
    }
}

/// `256` to the power `n`.
pub open spec fn pow256(n: nat) -> nat
    decreases n,
{
    if n == 0 {
        1
    } else {
        256 * pow256((n - 1) as nat)
    }
}

/// Sixteen bytes, or any `n` bytes, spell a number below `256^n`.
pub proof fn lemma_be_value_bound(s: Seq<u8>)
    ensures
        be_value(s) < pow256(s.len()),
    decreases s.len(),
{
    if s.len() > 0 {
        lemma_be_value_bound(s.drop_last());
        let a = be_value(s.drop_last());
        let p = pow256(s.drop_last().len());
        let b = s.last();
        assert(a * 256 + b < 256 * p) by (nonlinear_arith)
            requires
                a < p,
                b < 256,
        ;
    }
}

/// A 32-byte word as a `u128`, when its first sixteen bytes are zero.
pub fn u128_from_word(word: &[u8; 32]) -> (r: Option<u128>)
    ensures
        match r {
            Some(v) => (forall|i: int| 0 <= i < 16 ==> #[trigger] word@[i] == 0) && v == be_value(
                word@.subrange(16, 32),
            ),
            None => exists|i: int| 0 <= i < 16 && #[trigger] word@[i] != 0,
        },
{
    let mut i: usize = 0;
    while i < 16
        invariant
            i <= 16,
            word@.len() == 32,
            forall|j: int| 0 <= j < i ==> #[trigger] word@[j] == 0,
        decreases 16 - i,
    {
        if word[i] != 0 {
            return None;
        }
        i = i + 1;
    }
    let mut acc: u128 = 0;
    let mut k: usize = 16;
    assert(word@.subrange(16, 16) =~= Seq::<u8>::empty());
    while k < 32
        invariant
            16 <= k <= 32,
            word@.len() == 32,
            acc == be_value(word@.subrange(16, k as int)),
        decreases 32 - k,
    {
        let ghost sub = word@.subrange(16, k as int + 1);
        proof {
            assert(sub.drop_last() =~= word@.subrange(16, k as int));
            lemma_be_value_bound(word@.subrange(16, k as int));
            lemma_pow256_15_fits();
            lemma_pow256_monotone((k - 16) as nat, 15);
        }
        let b = word[k];
        acc = acc * 256 + b as u128;
        k = k + 1;
    }
    Some(acc)
}

/// Powers of 256 grow with the exponent.
pub proof fn lemma_pow256_monotone(a: nat, b: nat)
    requires
        a <= b,
    ensures
        pow256(a) <= pow256(b),
    decreases b,
{
    if a < b {
        lemma_pow256_monotone(a, (b - 1) as nat);
    }
}

/// `256^16` is `2^128`.
pub proof fn lemma_pow256_15_fits()
    ensures
        pow256(15) * 256 == 0x1_0000_0000_0000_0000_0000_0000_0000_0000,
{
    reveal_with_fuel(pow256, 16);
}

/// The observed values at a failure, `name = value` each, sorted, after
/// `violated with `.
pub open spec fn state_text(parts: Seq<Seq<char>>) -> Seq<char> {
    "violated with "@ + joined(parts.sort_by(text_order()), ", "@)
}

/// The `name = value` text of each observed value, in name order.
pub open spec fn observed_parts(observed: Seq<(Seq<char>, u128)>) -> Seq<Seq<char>> {
    observed.map_values(|p: (Seq<char>, u128)| p.0 + " = "@ + dec_digits(p.1 as nat))
}

/// What was observed when a property failed.
pub fn render_state(observed: &StrMap<u128>) -> (r: String)
    ensures
        r@ == state_text(observed_parts(observed.pairs())),
{
    let n = observed.len();
    let mut parts: Vec<String> = Vec::new();
    let mut i: usize = 0;
    while i < n
        invariant
            i <= n,
            n == observed.pairs().len(),
            parts@.len() == i,
            forall|j: int|
                0 <= j < i ==> #[trigger] parts@[j]@ == observed_parts(observed.pairs())[j],
        decreases n - i,
    {
        let mut p = string_from(observed.key_at(i).as_str());
        push_str(&mut p, " = ");
        push_u128(&mut p, *observed.value_at(i));
        parts.push(p);
        i = i + 1;
    }
    let sorted = sort_strings(&parts);
    let list = join_strings(sorted.as_slice(), ", ");
    let mut out = string_from("violated with ");
    push_str(&mut out, list.as_str());
    proof {
        let views = string_views(parts@);
        assert(views =~= observed_parts(observed.pairs()));
        lemma_text_le_total();
        views.lemma_sort_by_ensures(text_order());
        vstd::seq_lib::lemma_sorted_unique(
            string_views(sorted@),
            views.sort_by(text_order()),
            text_order(),
        );
        assert(sorted@.map_values(|s: String| s@) == string_views(sorted@));
    }
    out
}

/// Why a property could not be attached to a contract.
#[derive(Debug, Clone)]
pub struct BindError {
    /// The invariant that failed to bind.
    pub invariant: String,
    /// Variables with no matching getter.
    pub unbound: Vec<String>,
    /// Zero-argument getters the contract does expose.
    pub available: Vec<String>,
}

/// The message of a binding failure.
pub open spec fn bind_error_text(e: BindError) -> Seq<char> {
    "invariant '"@ + e.invariant@ + "' references "@ + (if e.unbound@.len() == 1 {
        "a variable"@
    } else {
        "variables"@
    }) + " with no matching zero-argument view on the contract.\n  unbound: "@ + joined(
        string_views(e.unbound@),
        ", "@,
    ) + "\n  available getters: "@ + (if e.available@.len() == 0 {
        "(none)"@
    } else {
        joined(string_views(e.available@), ", "@)
    })
}

impl BindError {
    /// The message of this error.
    pub fn to_string(&self) -> (r: String)
        ensures
            r@ == bind_error_text(*self),
    {
        let mut out = string_from("invariant '");
        push_str(&mut out, self.invariant.as_str());
        push_str(&mut out, "' references ");
        if self.unbound.len() == 1 {
            push_str(&mut out, "a variable");
        } else {
            push_str(&mut out, "variables");
        }
        push_str(&mut out, " with no matching zero-argument view on the contract.\n  unbound: ");
        let u = join_strings(self.unbound.as_slice(), ", ");
        push_str(&mut out, u.as_str());
        push_str(&mut out, "\n  available getters: ");
        if self.available.len() == 0 {
            push_str(&mut out, "(none)");
        } else {
            let a = join_strings(self.available.as_slice(), ", ");
            push_str(&mut out, a.as_str());
        }
        assert(out@ =~= bind_error_text(*self));
        out
    }
}

} // verus!
