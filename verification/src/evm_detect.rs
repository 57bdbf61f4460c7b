//! Standard invariants recognised from a contract's function surface alone:
//! ERC20-shaped conservation (`totalSupply()` and `balanceOf(address)` both
//! present), Ownable-shaped access control (`owner()` and
//! `transferOwnership(address)`), and monotonicity for every no-argument
//! view whose name suggests an accumulator. An empty result means "nothing
//! to check yet", never "the contract is safe": fuzzing without an oracle
//! can find nothing.
use vstd::prelude::*;
use crate::dynamic::{FunctionSpec, ParamKind, same_function};
use crate::text::{has_substring, push_str, str_contains, str_eq, string_from, to_lowercase, unicode_lowercase};

verus! {

/// An invariant recognised from the function surface, with the functions
/// the engine checks it through.
#[derive(Debug)]
pub enum DetectedInvariant {
    /// The balances of the actors sum to the total supply.
    Conservation {
        /// The invariant's name.
        name: String,
        /// The `totalSupply()` getter.
        total_supply: FunctionSpec,
        /// The `balanceOf(address)` getter.
        balance_of: FunctionSpec,
        /// The accounts whose balances are summed.
        actors: Vec<[u8; 20]>,
    },
    /// Only the owner can transfer ownership.
    AccessControl {
        /// The invariant's name.
        name: String,
        /// The `owner()` getter.
        owner: FunctionSpec,
        /// The `transferOwnership(address)` setter.
        transfer: FunctionSpec,
    },
    /// The getter's value never decreases.
    Monotonic {
        /// The invariant's name.
        name: String,
        /// The getter watched.
        getter: FunctionSpec,
    },
}

impl DetectedInvariant {
    /// The invariant's name.
    pub fn name(&self) -> (r: &str)
        ensures
            r@ == detected_name(*self),
    {
        match self {
            DetectedInvariant::Conservation { name, .. } => name.as_str(),
            DetectedInvariant::AccessControl { name, .. } => name.as_str(),
            DetectedInvariant::Monotonic { name, .. } => name.as_str(),
        }
    }
}

/// The name of a detected invariant.
pub open spec fn detected_name(d: DetectedInvariant) -> Seq<char> {
    match d {
        DetectedInvariant::Conservation { name, .. } => name@,
        DetectedInvariant::AccessControl { name, .. } => name@,
        DetectedInvariant::Monotonic { name, .. } => name@,
    }
}

/// Which invariant is recognised, by the indices of its functions.
pub enum Detection {
    /// Conservation, through `totalSupply()` and `balanceOf(address)`.
    Conservation(int, int),
    /// Access control, through `owner()` and `transferOwnership(address)`.
    AccessControl(int, int),
    /// Monotonicity of a getter.
    Monotonic(int),
}

/// The first function from index `i` on named `name` that takes `arity`
/// arguments.
pub open spec fn first_named(fns: Seq<FunctionSpec>, name: Seq<char>, arity: nat, i: int) -> Option<
    int,
>
    decreases fns.len() - i,
{
    if i < 0 || i >= fns.len() {
        None
    } else if fns[i].name@ == name && fns[i].inputs@.len() == arity {
        Some(i)
    } else {
        first_named(fns, name, arity, i + 1)
    }
}

/// The first function from index `i` on named `name` whose parameters are
/// exactly `inputs`.
pub open spec fn first_with_inputs(
    fns: Seq<FunctionSpec>,
    name: Seq<char>,
    inputs: Seq<ParamKind>,
    i: int,
) -> Option<int>
    decreases fns.len() - i,
{
    if i < 0 || i >= fns.len() {
        None
    } else if fns[i].name@ == name && fns[i].inputs@ == inputs {
        Some(i)
    } else {
        first_with_inputs(fns, name, inputs, i + 1)
    }
}

/// A lower-cased name that suggests an accumulator.
pub open spec fn accumulator_name(lower: Seq<char>) -> bool {
    ||| has_substring(lower, "totalsupply"@)
    ||| has_substring(lower, "totalassets"@)
    ||| has_substring(lower, "exchangerate"@)
    ||| has_substring(lower, "shareprice"@)
    ||| has_substring(lower, "totaldeposits"@)
    ||| has_substring(lower, "checkpoint"@)
    ||| has_substring(lower, "cumulative"@)
}

/// `f` is a plain accumulator getter: a view with no arguments whose name,
/// in lower case, suggests an accumulator.
pub open spec fn is_accumulator(f: FunctionSpec) -> bool {
    !f.mutates_state && f.inputs@.len() == 0 && accumulator_name(unicode_lowercase(f.name@))
}

/// The monotonicity invariants of the functions from index `i` on.
pub open spec fn monotonic_from(fns: Seq<FunctionSpec>, i: int) -> Seq<Detection>
    decreases fns.len() - i,
{
    if i < 0 || i >= fns.len() {
        Seq::empty()
    } else {
        (if is_accumulator(fns[i]) {
            seq![Detection::Monotonic(i)]
        } else {
            Seq::empty()
        }) + monotonic_from(fns, i + 1)
    }
}

/// What is recognised in `fns`: conservation, then access control, each
/// where both of its functions are present, then a monotonicity invariant
/// for each accumulator getter in order.
pub open spec fn detections(fns: Seq<FunctionSpec>) -> Seq<Detection> {
    let ts = first_named(fns, "totalSupply"@, 0, 0);
    let bo = first_named(fns, "balanceOf"@, 1, 0);
    let ow = first_named(fns, "owner"@, 0, 0);
    let tr = first_with_inputs(fns, "transferOwnership"@, seq![ParamKind::Address], 0);
    (if ts is Some && bo is Some {
        seq![Detection::Conservation(ts->0, bo->0)]
    } else {
        Seq::empty()
    }) + (if ow is Some && tr is Some {
        seq![Detection::AccessControl(ow->0, tr->0)]
    } else {
        Seq::empty()
    }) + monotonic_from(fns, 0)
}

/// `d` is the invariant `m` describes over `fns`, watched through `actors`.
pub open spec fn detected_is(
    d: DetectedInvariant,
    m: Detection,
    fns: Seq<FunctionSpec>,
    actors: Seq<[u8; 20]>,
) -> bool {
    match m {
        Detection::Conservation(t, b) => d matches DetectedInvariant::Conservation {
            name,
            total_supply,
            balance_of,
            actors: a,
        } && name@ == "ERC20 conservation: sum(balanceOf) == totalSupply()"@ && same_function(
            total_supply,
            fns[t],
        ) && same_function(balance_of, fns[b]) && a@ == actors,
        Detection::AccessControl(o, t) => d matches DetectedInvariant::AccessControl {
            name,
            owner,
            transfer,
        } && name@ == "transferOwnership authorization"@ && same_function(owner, fns[o])
            && same_function(transfer, fns[t]),
        Detection::Monotonic(i) => d matches DetectedInvariant::Monotonic { name, getter }
            && name@ == fns[i].name@ + " monotonicity"@ && same_function(getter, fns[i]),
    }
}

fn find_named(functions: &[FunctionSpec], name: &str, arity: usize) -> (r: Option<usize>)
    ensures
        match r {
            Some(i) => i < functions@.len() && first_named(functions@, name@, arity as nat, 0) == Some(
                i as int,
            ),
            None => first_named(functions@, name@, arity as nat, 0) is None,
        },
{
    let mut i: usize = 0;
    while i < functions.len()
        invariant
            i <= functions@.len(),
            first_named(functions@, name@, arity as nat, 0) == first_named(
                functions@,
                name@,
                arity as nat,
                i as int,
            ),
        decreases functions.len() - i,
    {
        if str_eq(functions[i].name.as_str(), name) && functions[i].inputs.len() == arity {
            return Some(i);
        }
        i = i + 1;
    }
    None
}

fn find_transfer_ownership(functions: &[FunctionSpec]) -> (r: Option<usize>)
    ensures
        match r {
            Some(i) => i < functions@.len() && first_with_inputs(
                functions@,
                "transferOwnership"@,
                seq![ParamKind::Address],
                0,
            ) == Some(i as int),
            None => first_with_inputs(
                functions@,
                "transferOwnership"@,
                seq![ParamKind::Address],
                0,
            ) is None,
        },
{
    let mut i: usize = 0;
    while i < functions.len()
        invariant
            i <= functions@.len(),
            first_with_inputs(functions@, "transferOwnership"@, seq![ParamKind::Address], 0)
                == first_with_inputs(
                functions@,
                "transferOwnership"@,
                seq![ParamKind::Address],
                i as int,
            ),
        decreases functions.len() - i,
    {
        let f = &functions[i];
        if str_eq(f.name.as_str(), "transferOwnership") && f.inputs.len() == 1 && f.inputs[0]
            == ParamKind::Address {
            assert(f.inputs@ =~= seq![ParamKind::Address]);
            return Some(i);
        }
        assert(f.inputs@ == seq![ParamKind::Address] ==> f.inputs@[0] == ParamKind::Address);
        i = i + 1;
    }
    None
}

/// Whether a name, lower-cased, suggests an accumulator.
fn names_accumulator(lower: &str) -> (r: bool)
    ensures
        r == accumulator_name(lower@),
{
    str_contains(lower, "totalsupply") || str_contains(lower, "totalassets") || str_contains(
        lower,
        "exchangerate",
    ) || str_contains(lower, "shareprice") || str_contains(lower, "totaldeposits")
        || str_contains(lower, "checkpoint") || str_contains(lower, "cumulative")
}

/// The standard invariants recognised in `functions`, conservation watched
/// through `actors`: see `detections`.
pub fn auto_detect_invariants(functions: &[FunctionSpec], actors: &[[u8; 20]]) -> (r: Vec<
    DetectedInvariant,
>)
    ensures
        r@.len() == detections(functions@).len(),
        forall|j: int|
            0 <= j < r@.len() ==> detected_is(
                #[trigger] r@[j],
                detections(functions@)[j],
                functions@,
                actors@,
            ),
{
    let ghost fns = functions@;
    let mut out: Vec<DetectedInvariant> = Vec::new();
    let ts = find_named(functions, "totalSupply", 0);
    let bo = find_named(functions, "balanceOf", 1);
    let ghost head1: Seq<Detection> = if ts is Some && bo is Some {
        seq![Detection::Conservation(ts->0 as int, bo->0 as int)]
    } else {
        Seq::empty()
    };
    if let (Some(t), Some(b)) = (ts, bo) {
        let mut watched: Vec<[u8; 20]> = Vec::new();
        let mut k: usize = 0;
        while k < actors.len()
            invariant
                k <= actors@.len(),
                watched@ == actors@.subrange(0, k as int),
            decreases actors.len() - k,
        {
            watched.push(actors[k]);
            k = k + 1;
            assert(watched@ =~= actors@.subrange(0, k as int));
        }
        assert(actors@.subrange(0, actors@.len() as int) =~= actors@);
        out.push(
            DetectedInvariant::Conservation {
                name: string_from("ERC20 conservation: sum(balanceOf) == totalSupply()"),
                total_supply: functions[t].clone(),
                balance_of: functions[b].clone(),
                actors: watched,
            },
        );
    }
    let ow = find_named(functions, "owner", 0);
    let tr = find_transfer_ownership(functions);
    let ghost head2: Seq<Detection> = head1 + if ow is Some && tr is Some {
        seq![Detection::AccessControl(ow->0 as int, tr->0 as int)]
    } else {
        Seq::empty()
    };
    if let (Some(o), Some(t)) = (ow, tr) {
        out.push(
            DetectedInvariant::AccessControl {
                name: string_from("transferOwnership authorization"),
                owner: functions[o].clone(),
                transfer: functions[t].clone(),
            },
        );
    }
    assert(out@.len() == head2.len());
    let mut i: usize = 0;
    assert(head2 + monotonic_from(fns, 0) =~= detections(fns));
    while i < functions.len()
        invariant
            i <= fns.len(),
            fns == functions@,
            out@.len() + monotonic_from(fns, i as int).len() == detections(fns).len(),
            forall|j: int|
                0 <= j < out@.len() ==> detected_is(#[trigger] out@[j], detections(fns)[j], fns, actors@),
            forall|j: int|
                0 <= j < monotonic_from(fns, i as int).len() ==> detections(fns)[out@.len() + j]
                    == #[trigger] monotonic_from(fns, i as int)[j],
        decreases functions.len() - i,
    {
        let f = &functions[i];
        let ghost rest = monotonic_from(fns, i as int + 1);
        if !f.mutates_state && f.inputs.len() == 0 {
            let lower = to_lowercase(f.name.as_str());
            if names_accumulator(lower.as_str()) {
                let mut name = f.name.clone();
                push_str(&mut name, " monotonicity");
                out.push(DetectedInvariant::Monotonic { name, getter: f.clone() });
                assert(monotonic_from(fns, i as int) =~= seq![Detection::Monotonic(i as int)] + rest);
                assert(monotonic_from(fns, i as int)[0] == Detection::Monotonic(i as int));
            } else {
                assert(monotonic_from(fns, i as int) =~= rest);
            }
        } else {
            assert(monotonic_from(fns, i as int) =~= rest);
        }
        proof {
            assert forall|j: int| 0 <= j < rest.len() implies detections(fns)[out@.len() + j]
                == #[trigger] rest[j] by {
                let d = monotonic_from(fns, i as int).len() - rest.len();
                assert(monotonic_from(fns, i as int)[j + d] == rest[j]);
            }
        }
        i = i + 1;
    }
    out
}


/// An accumulator getter at or after `start` has its monotonicity invariant
/// among those recognised from `start` on.
proof fn lemma_monotonic_includes(fns: Seq<FunctionSpec>, start: int, i: int)
    requires
        0 <= start <= i < fns.len(),
        is_accumulator(fns[i]),
    ensures
        exists|p: int|
            0 <= p < monotonic_from(fns, start).len() && #[trigger] monotonic_from(fns, start)[p]
                == Detection::Monotonic(i),
    decreases i - start,
{
    let head: Seq<Detection> = if is_accumulator(fns[start]) {
        seq![Detection::Monotonic(start)]
    } else {
        Seq::empty()
    };
    assert(monotonic_from(fns, start) == head + monotonic_from(fns, start + 1));
    if start == i {
        assert(monotonic_from(fns, start)[0] == Detection::Monotonic(i));
    } else {
        lemma_monotonic_includes(fns, start + 1, i);
        let p = choose|p: int|
            0 <= p < monotonic_from(fns, start + 1).len() && #[trigger] monotonic_from(fns, start + 1)[p]
                == Detection::Monotonic(i);
        assert(monotonic_from(fns, start)[head.len() + p] == Detection::Monotonic(i));
    }
}

/// Every view with no inputs whose lower-cased name contains one of the
/// accumulator hints (totalsupply, totalassets, exchangerate, shareprice,
/// totaldeposits, checkpoint, cumulative) is watched: what
/// `auto_detect_invariants` returns holds a monotonicity invariant named
/// `<name> monotonicity` over that getter.
pub proof fn lemma_accumulators_are_watched(
    fns: Seq<FunctionSpec>,
    actors: Seq<[u8; 20]>,
    r: Seq<DetectedInvariant>,
    i: int,
    hint: Seq<char>,
)
    requires
        r.len() == detections(fns).len(),
        forall|j: int| 0 <= j < r.len() ==> detected_is(#[trigger] r[j], detections(fns)[j], fns, actors),
        0 <= i < fns.len(),
        !fns[i].mutates_state,
        fns[i].inputs@.len() == 0,
        hint == "totalsupply"@ || hint == "totalassets"@ || hint == "exchangerate"@ || hint
            == "shareprice"@ || hint == "totaldeposits"@ || hint == "checkpoint"@ || hint
            == "cumulative"@,
        has_substring(unicode_lowercase(fns[i].name@), hint),
    ensures
        exists|j: int|
            0 <= j < r.len() && (#[trigger] r[j] matches DetectedInvariant::Monotonic { name, getter }
                && name@ == fns[i].name@ + " monotonicity"@ && same_function(getter, fns[i])),
{
    assert(is_accumulator(fns[i]));
    lemma_monotonic_includes(fns, 0, i);
    let p = choose|p: int|
        0 <= p < monotonic_from(fns, 0).len() && #[trigger] monotonic_from(fns, 0)[p] == Detection::Monotonic(i);
    let ts = first_named(fns, "totalSupply"@, 0, 0);
    let bo = first_named(fns, "balanceOf"@, 1, 0);
    let ow = first_named(fns, "owner"@, 0, 0);
    let tr = first_with_inputs(fns, "transferOwnership"@, seq![ParamKind::Address], 0);
    let h1: Seq<Detection> = if ts is Some && bo is Some {
        seq![Detection::Conservation(ts->0, bo->0)]
    } else {
        Seq::empty()
    };
    let h2: Seq<Detection> = if ow is Some && tr is Some {
        seq![Detection::AccessControl(ow->0, tr->0)]
    } else {
        Seq::empty()
    };
    assert(detections(fns) == h1 + h2 + monotonic_from(fns, 0));
    let j = h1.len() + h2.len() + p;
    assert(detections(fns)[j] == Detection::Monotonic(i));
    assert(detected_is(r[j], detections(fns)[j], fns, actors));
}


/// Where a function with this name and arity stands at or after `i`, the
/// search finds one: the first such, itself with that name and arity.
proof fn lemma_first_named_found(fns: Seq<FunctionSpec>, name: Seq<char>, arity: nat, i: int, t: int)
    requires
        0 <= i <= t < fns.len(),
        fns[t].name@ == name,
        fns[t].inputs@.len() == arity,
    ensures
        first_named(fns, name, arity, i) is Some,
        i <= first_named(fns, name, arity, i)->0 < fns.len(),
        fns[first_named(fns, name, arity, i)->0].name@ == name,
        fns[first_named(fns, name, arity, i)->0].inputs@.len() == arity,
    decreases t - i,
{
    if !(fns[i].name@ == name && fns[i].inputs@.len() == arity) {
        lemma_first_named_found(fns, name, arity, i + 1, t);
    }
}

/// Where a function with this name and these parameters stands at or after
/// `i`, the search finds one.
proof fn lemma_first_with_inputs_found(
    fns: Seq<FunctionSpec>,
    name: Seq<char>,
    inputs: Seq<ParamKind>,
    i: int,
    t: int,
)
    requires
        0 <= i <= t < fns.len(),
        fns[t].name@ == name,
        fns[t].inputs@ == inputs,
    ensures
        first_with_inputs(fns, name, inputs, i) is Some,
        i <= first_with_inputs(fns, name, inputs, i)->0 < fns.len(),
        fns[first_with_inputs(fns, name, inputs, i)->0].name@ == name,
        fns[first_with_inputs(fns, name, inputs, i)->0].inputs@ == inputs,
    decreases t - i,
{
    if !(fns[i].name@ == name && fns[i].inputs@ == inputs) {
        lemma_first_with_inputs_found(fns, name, inputs, i + 1, t);
    }
}

/// An ERC20 surface is watched for conservation: where the functions hold a
/// `totalSupply()` with no parameters and a `balanceOf` with one, what
/// `auto_detect_invariants` returns holds, first, the conservation
/// invariant over such a pair, summing the balances of `actors`.
pub proof fn lemma_erc20_surface_is_watched(
    fns: Seq<FunctionSpec>,
    actors: Seq<[u8; 20]>,
    r: Seq<DetectedInvariant>,
    t: int,
    b: int,
)
    requires
        r.len() == detections(fns).len(),
        forall|j: int| 0 <= j < r.len() ==> detected_is(#[trigger] r[j], detections(fns)[j], fns, actors),
        0 <= t < fns.len(),
        0 <= b < fns.len(),
        fns[t].name@ == "totalSupply"@,
        fns[t].inputs@.len() == 0,
        fns[b].name@ == "balanceOf"@,
        fns[b].inputs@.len() == 1,
    ensures
        r.len() > 0,
        r[0] matches DetectedInvariant::Conservation { name, total_supply, balance_of, actors: a }
            && name@ == "ERC20 conservation: sum(balanceOf) == totalSupply()"@ && total_supply.name@
            == "totalSupply"@ && total_supply.inputs@.len() == 0 && balance_of.name@ == "balanceOf"@
            && balance_of.inputs@.len() == 1 && a@ == actors,
{
    lemma_first_named_found(fns, "totalSupply"@, 0, 0, t);
    lemma_first_named_found(fns, "balanceOf"@, 1, 0, b);
    assert(detected_is(r[0], detections(fns)[0], fns, actors));
}

/// An Ownable surface is watched for access control: where the functions
/// hold an `owner()` with no parameters and a `transferOwnership(address)`,
/// what `auto_detect_invariants` returns holds the authorization invariant
/// over such a pair.
pub proof fn lemma_ownable_surface_is_watched(
    fns: Seq<FunctionSpec>,
    actors: Seq<[u8; 20]>,
    r: Seq<DetectedInvariant>,
    o: int,
    t: int,
)
    requires
        r.len() == detections(fns).len(),
        forall|j: int| 0 <= j < r.len() ==> detected_is(#[trigger] r[j], detections(fns)[j], fns, actors),
        0 <= o < fns.len(),
        0 <= t < fns.len(),
        fns[o].name@ == "owner"@,
        fns[o].inputs@.len() == 0,
        fns[t].name@ == "transferOwnership"@,
        fns[t].inputs@ == seq![ParamKind::Address],
    ensures
        exists|j: int|
            0 <= j < r.len() && (#[trigger] r[j] matches DetectedInvariant::AccessControl { name, owner, transfer }
                && name@ == "transferOwnership authorization"@ && owner.name@ == "owner"@
                && owner.inputs@.len() == 0 && transfer.name@ == "transferOwnership"@ && transfer.inputs@
                == seq![ParamKind::Address]),
{
    lemma_first_named_found(fns, "owner"@, 0, 0, o);
    lemma_first_with_inputs_found(fns, "transferOwnership"@, seq![ParamKind::Address], 0, t);
    let ts = first_named(fns, "totalSupply"@, 0, 0);
    let bo = first_named(fns, "balanceOf"@, 1, 0);
    let j: int = if ts is Some && bo is Some {
        1
    } else {
        0
    };
    assert(detections(fns)[j] == Detection::AccessControl(
        first_named(fns, "owner"@, 0, 0)->0,
        first_with_inputs(fns, "transferOwnership"@, seq![ParamKind::Address], 0)->0,
    ));
    assert(detected_is(r[j], detections(fns)[j], fns, actors));
}

} // verus!
