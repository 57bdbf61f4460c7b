//! Binding of DSL properties to the getters of a live contract, so that the
//! dynamic engine checks the properties a user wrote and not only those it
//! can infer from an ABI.
//!
//! A free variable binds to a zero-argument view function of the same name;
//! a call whose arguments are all literals binds to a getter of that arity,
//! called with those arguments. Names match across snake_case in the DSL and
//! camelCase in Solidity. A variable that cannot be bound is an error, never
//! a skip: dropping a property the user asked for would report "no
//! violations" for a check that never ran.
use vstd::prelude::*;
use crate::dynamic::{
    BindError, FunctionSpec, observed_parts, render_state, state_text, u128_from_word, ParamKind, Site, SiteModel, be_value, lemma_be_value_bound, lemma_pow256_15_fits,
    model_key, normalise, normalised, pow256, same_function,
};
use crate::text::{dec_digits, int_text, push_i128, push_str, str_eq, string_from, usize_to_string};
use crate::evaluator::{
    Evaluator, ExecutionContext, NativeFunction, Value, ValueModel, eval_expr, evaluation_error_text,
    lemma_eval_decided, lemma_eval_same_expr, no_native_calls, value_text,
};
use crate::model::{Expression, Invariant as DslSpec, same_expr};
use crate::strmap::{
    StrMap, keys_ascending, lemma_lt_asymmetric, lemma_lt_irreflexive, lemma_map_of_domain,
    lemma_map_of_value, map_of, string_views, text_lt,
};

verus! {

/// The constant an argument stands for: an integer, or a boolean as 0 or 1.
pub open spec fn literal_of(e: Expression) -> Option<i128> {
    match e {
        Expression::Int(v) => Some(v),
        Expression::Boolean(b) => Some(
            if b {
                1i128
            } else {
                0i128
            },
        ),
        _ => None,
    }
}

/// The constants a call's arguments stand for, when every one is a literal.
pub open spec fn literal_args(args: Seq<Expression>) -> Option<Seq<i128>> {
    if forall|i: int| 0 <= i < args.len() ==> #[trigger] literal_of(args[i]) is Some {
        Some(args.map_values(|e: Expression| literal_of(e)->0))
    } else {
        None
    }
}

/// The chain reads an expression needs, in the order they occur: each
/// variable, the variable of each layer- or phase-qualified name, and each
/// call whose arguments are all literals; a call with a computed argument
/// needs what its arguments read.
pub open spec fn sites_of(e: Expression) -> Seq<SiteModel>
    decreases e, 0int,
{
    match e {
        Expression::Var(name) => seq![SiteModel::Var(name@)],
        Expression::LayerVar { layer: _, var } => seq![SiteModel::Var(var@)],
        Expression::PhaseQualifiedVar { phase: _, layer: _, var } => seq![SiteModel::Var(var@)],
        Expression::FunctionCall { name, args } => match literal_args(args@) {
            Some(a) => seq![SiteModel::Call(name@, a)],
            None => sites_of_list(args@, 0),
        },
        Expression::BinaryOp { left, op: _, right } => sites_of(*left) + sites_of(*right),
        Expression::Arithmetic { left, op: _, right } => sites_of(*left) + sites_of(*right),
        Expression::Logical { left, op: _, right } => sites_of(*left) + sites_of(*right),
        Expression::Not(inner) => sites_of(*inner),
        Expression::PhaseConstraint { phase: _, constraint } => sites_of(*constraint),
        Expression::CrossPhaseRelation { phase1: _, expr1, phase2: _, expr2, op: _ } => sites_of(
            *expr1,
        ) + sites_of(*expr2),
        Expression::Tuple(items) => sites_of_list(items@, 0),
        Expression::Boolean(_) => Seq::empty(),
        Expression::Int(_) => Seq::empty(),
    }
}

/// The reads of `xs` from index `i` on, in order.
pub open spec fn sites_of_list(xs: Seq<Expression>, i: int) -> Seq<SiteModel>
    decreases xs, xs.len() - i,
{
    if i < 0 || i >= xs.len() {
        Seq::empty()
    } else {
        sites_of(xs[i]) + sites_of_list(xs, i + 1)
    }
}

/// What a list of sites is.
pub open spec fn site_views(v: Seq<Site>) -> Seq<SiteModel> {
    v.map_values(|s: Site| s@)
}

/// The literal arguments of a call, when all of them are literals.
fn literal_args_of(args: &Vec<Expression>) -> (r: Option<Vec<i128>>)
    ensures
        match r {
            Some(v) => literal_args(args@) == Some(v@),
            None => literal_args(args@) is None,
        },
{
    let mut out: Vec<i128> = Vec::new();
    let mut i: usize = 0;
    while i < args.len()
        invariant
            i <= args.len(),
            out@.len() == i,
            forall|j: int| 0 <= j < i ==> #[trigger] literal_of(args@[j]) == Some(out@[j]),
        decreases args.len() - i,
    {
        match &args[i] {
            Expression::Int(v) => out.push(*v),
            Expression::Boolean(b) => out.push(
                if *b {
                    1
                } else {
                    0
                },
            ),
            _ => {
                assert(literal_of(args@[i as int]) is None);
                return None;
            },
        }
        i = i + 1;
    }
    proof {
        assert(forall|j: int| 0 <= j < args@.len() ==> #[trigger] literal_of(args@[j]) is Some);
        assert(out@ =~= args@.map_values(|e: Expression| literal_of(e)->0));
    }
    Some(out)
}

/// Appends the reads `expr` needs to `out`.
fn collect_sites(expr: &Expression, out: &mut Vec<Site>)
    ensures
        site_views(final(out)@) == site_views(old(out)@) + sites_of(*expr),
    decreases expr,
{
    let ghost before = site_views(out@);
    match expr {
        Expression::Var(name) => {
            out.push(Site::Var(name.clone()));
        },
        Expression::LayerVar { layer: _, var } => {
            out.push(Site::Var(var.clone()));
        },
        Expression::PhaseQualifiedVar { phase: _, layer: _, var } => {
            out.push(Site::Var(var.clone()));
        },
        Expression::FunctionCall { name, args } => {
            match literal_args_of(args) {
                Some(a) => {
                    out.push(Site::Call { name: name.clone(), args: a });
                },
                None => {
                    collect_list(args, out);
                },
            }
        },
        Expression::BinaryOp { left, op: _, right } => {
            collect_sites(left, out);
            collect_sites(right, out);
        },
        Expression::Arithmetic { left, op: _, right } => {
            collect_sites(left, out);
            collect_sites(right, out);
        },
        Expression::Logical { left, op: _, right } => {
            collect_sites(left, out);
            collect_sites(right, out);
        },
        Expression::Not(inner) => {
            collect_sites(inner, out);
        },
        Expression::PhaseConstraint { phase: _, constraint } => {
            collect_sites(constraint, out);
        },
        Expression::CrossPhaseRelation { phase1: _, expr1, phase2: _, expr2, op: _ } => {
            collect_sites(expr1, out);
            collect_sites(expr2, out);
        },
        Expression::Tuple(items) => {
            collect_list(items, out);
        },
        Expression::Boolean(_) => {},
        Expression::Int(_) => {},
    }
    assert(site_views(out@) =~= before + sites_of(*expr));
}

/// Appends the reads each of `items` needs to `out`, in order.
fn collect_list(items: &Vec<Expression>, out: &mut Vec<Site>)
    ensures
        site_views(final(out)@) == site_views(old(out)@) + sites_of_list(items@, 0),
    decreases items,
{
    let ghost base = site_views(out@);
    let mut i: usize = 0;
    assert(base + sites_of_list(items@, 0) =~= site_views(out@) + sites_of_list(items@, 0));
    while i < items.len()
        invariant
            i <= items.len(),
            site_views(out@) + sites_of_list(items@, i as int) == base + sites_of_list(items@, 0),
        decreases items.len() - i,
    {
        let ghost mid = site_views(out@);
        collect_sites(&items[i], out);
        assert(mid + sites_of_list(items@, i as int) =~= site_views(out@) + sites_of_list(
            items@,
            i + 1,
        ));
        i = i + 1;
    }
    assert(site_views(out@) + sites_of_list(items@, i as int) =~= site_views(out@));
}

/// The first site with each key, by key.
pub open spec fn first_sites(s: Seq<SiteModel>) -> Map<Seq<char>, SiteModel>
    decreases s.len(),
{
    if s.len() == 0 {
        Map::empty()
    } else {
        let m = first_sites(s.drop_last());
        if m.contains_key(model_key(s.last())) {
            m
        } else {
            m.insert(model_key(s.last()), s.last())
        }
    }
}

/// Each site of `first_sites(s)` is filed under its own key.
pub proof fn lemma_first_sites_keys(s: Seq<SiteModel>)
    ensures
        forall|k: Seq<char>| #[trigger]
            first_sites(s).contains_key(k) ==> model_key(first_sites(s)[k]) == k,
    decreases s.len(),
{
    if s.len() > 0 {
        let m = first_sites(s.drop_last());
        lemma_first_sites_keys(s.drop_last());
        assert forall|k: Seq<char>| #[trigger]
            first_sites(s).contains_key(k) implies model_key(first_sites(s)[k]) == k by {
            if m.contains_key(k) {
                assert(model_key(m[k]) == k);
            }
        }
    }
}

/// `u` holds the first site of `s` with each key, once each, in ascending
/// key order: the order in which a binding reads them.
pub open spec fn ordered_sites(s: Seq<SiteModel>, u: Seq<SiteModel>) -> bool {
    &&& forall|i: int, j: int|
        0 <= i < j < u.len() ==> text_lt(model_key(#[trigger] u[i]), model_key(#[trigger] u[j]))
    &&& forall|j: int|
        0 <= j < u.len() ==> first_sites(s).contains_key(model_key(#[trigger] u[j]))
            && first_sites(s)[model_key(u[j])] == u[j]
    &&& forall|k: Seq<char>| #[trigger]
        first_sites(s).contains_key(k) ==> exists|j: int| 0 <= j < u.len() && model_key(u[j]) == k
}

proof fn lemma_ascending_keys_unique(a: Seq<Seq<char>>, b: Seq<Seq<char>>)
    requires
        forall|i: int, j: int| 0 <= i < j < a.len() ==> text_lt(#[trigger] a[i], #[trigger] a[j]),
        forall|i: int, j: int| 0 <= i < j < b.len() ==> text_lt(#[trigger] b[i], #[trigger] b[j]),
        forall|x: Seq<char>| a.contains(x) <==> b.contains(x),
    ensures
        a == b,
    decreases a.len() + b.len(),
{
    if a.len() == 0 {
        if b.len() > 0 {
            assert(b.contains(b[0]));
        }
        assert(b =~= a);
    } else if b.len() == 0 {
        assert(a.contains(a[0]));
    } else {
        assert(a.contains(a[0]));
        assert(b.contains(b[0]));
        let j = choose|j: int| 0 <= j < b.len() && b[j] == a[0];
        let i = choose|i: int| 0 <= i < a.len() && a[i] == b[0];
        lemma_lt_irreflexive(a[0], 0);
        lemma_lt_irreflexive(b[0], 0);
        lemma_lt_asymmetric(a[0], b[0], 0);
        if j > 0 {
            assert(text_lt(b[0], b[j]));
            if i > 0 {
                assert(text_lt(a[0], a[i]));
            }
        }
        assert(a[0] == b[0]);
        let a1 = a.drop_first();
        let b1 = b.drop_first();
        assert forall|x: Seq<char>| a1.contains(x) <==> b1.contains(x) by {
            if a1.contains(x) {
                let p = choose|p: int| 0 <= p < a1.len() && a1[p] == x;
                assert(a.contains(x) && a[p + 1] == x);
                assert(text_lt(a[0], a[p + 1]));
                let q = choose|q: int| 0 <= q < b.len() && b[q] == x;
                if q == 0 {
                    assert(false);
                }
                assert(b1[q - 1] == x);
            }
            if b1.contains(x) {
                let p = choose|p: int| 0 <= p < b1.len() && b1[p] == x;
                assert(b.contains(x) && b[p + 1] == x);
                assert(text_lt(b[0], b[p + 1]));
                let q = choose|q: int| 0 <= q < a.len() && a[q] == x;
                if q == 0 {
                    assert(false);
                }
                assert(a1[q - 1] == x);
            }
        }
        assert forall|i: int, j: int| 0 <= i < j < a1.len() implies text_lt(
            #[trigger] a1[i],
            #[trigger] a1[j],
        ) by {
            assert(text_lt(a[i + 1], a[j + 1]));
        }
        assert forall|i: int, j: int| 0 <= i < j < b1.len() implies text_lt(
            #[trigger] b1[i],
            #[trigger] b1[j],
        ) by {
            assert(text_lt(b[i + 1], b[j + 1]));
        }
        lemma_ascending_keys_unique(a1, b1);
        assert(a =~= seq![a[0]] + a1);
        assert(b =~= seq![b[0]] + b1);
    }
}

/// The binding order is determined: only one list orders the reads of `s`.
pub proof fn lemma_ordered_sites_unique(s: Seq<SiteModel>, u1: Seq<SiteModel>, u2: Seq<SiteModel>)
    requires
        ordered_sites(s, u1),
        ordered_sites(s, u2),
    ensures
        u1 == u2,
{
    let k1 = u1.map_values(|x: SiteModel| model_key(x));
    let k2 = u2.map_values(|x: SiteModel| model_key(x));
    assert forall|i: int, j: int| 0 <= i < j < k1.len() implies text_lt(
        #[trigger] k1[i],
        #[trigger] k1[j],
    ) by {
        assert(text_lt(model_key(u1[i]), model_key(u1[j])));
    }
    assert forall|i: int, j: int| 0 <= i < j < k2.len() implies text_lt(
        #[trigger] k2[i],
        #[trigger] k2[j],
    ) by {
        assert(text_lt(model_key(u2[i]), model_key(u2[j])));
    }
    assert forall|x: Seq<char>| k1.contains(x) <==> k2.contains(x) by {
        if k1.contains(x) {
            let p = choose|p: int| 0 <= p < k1.len() && k1[p] == x;
            assert(first_sites(s).contains_key(model_key(u1[p])));
            let q = choose|q: int| 0 <= q < u2.len() && model_key(u2[q]) == x;
            assert(k2[q] == x);
        }
        if k2.contains(x) {
            let p = choose|p: int| 0 <= p < k2.len() && k2[p] == x;
            assert(first_sites(s).contains_key(model_key(u2[p])));
            let q = choose|q: int| 0 <= q < u1.len() && model_key(u1[q]) == x;
            assert(k1[q] == x);
        }
    }
    lemma_ascending_keys_unique(k1, k2);
    assert forall|i: int| 0 <= i < u1.len() implies u1[i] == u2[i] by {
        assert(k1[i] == k2[i]);
        assert(first_sites(s)[model_key(u1[i])] == u1[i]);
        assert(first_sites(s)[model_key(u2[i])] == u2[i]);
    }
    assert(u1 =~= u2);
}

/// The first site with each key, in ascending key order: a stable sort by
/// key followed by dropping later sites with a key already seen.
fn unique_sites(sites: &Vec<Site>) -> (r: Vec<Site>)
    ensures
        ordered_sites(site_views(sites@), site_views(r@)),
{
    let ghost all = site_views(sites@);
    let mut firsts: StrMap<Site> = StrMap::new();
    let mut i: usize = 0;
    assert(all.subrange(0, 0).len() == 0);
    while i < sites.len()
        invariant
            i <= sites.len(),
            all == site_views(sites@),
            firsts@.dom() == first_sites(all.subrange(0, i as int)).dom(),
            forall|k: Seq<char>| #[trigger]
                firsts@.contains_key(k) ==> firsts@[k]@ == first_sites(all.subrange(0, i as int))[k],
        decreases sites.len() - i,
    {
        let ghost pre = all.subrange(0, i as int);
        let ghost next = all.subrange(0, i as int + 1);
        assert(next.drop_last() =~= pre);
        assert(next.last() == sites@[i as int]@);
        let k = sites[i].key();
        if !firsts.contains_key(k.as_str()) {
            let site = sites[i].clone();
            firsts.insert(k, site);
            assert(firsts@.dom() =~= first_sites(next).dom());
        } else {
            assert(first_sites(pre).contains_key(model_key(sites@[i as int]@)));
            assert(first_sites(next) == first_sites(pre));
        }
        i = i + 1;
    }
    assert(all.subrange(0, sites@.len() as int) =~= all);
    let n = firsts.len();
    let mut out: Vec<Site> = Vec::new();
    let mut j: usize = 0;
    while j < n
        invariant
            j <= n,
            n == firsts.pairs().len(),
            out@.len() == j,
            forall|t: int| 0 <= t < j ==> #[trigger] out@[t]@ == firsts.pairs()[t].1@,
        decreases n - j,
    {
        out.push(firsts.value_at(j).clone());
        j = j + 1;
    }
    proof {
        let p = firsts.pairs();
        let u = site_views(out@);
        lemma_map_of_value(p);
        lemma_map_of_domain(p);
        lemma_first_sites_keys(all);
        assert forall|t: int| 0 <= t < u.len() implies model_key(#[trigger] u[t]) == p[t].0 by {
            assert(map_of(p).contains_key(p[t].0));
        }
        assert forall|a: int, b: int| 0 <= a < b < u.len() implies text_lt(
            model_key(#[trigger] u[a]),
            model_key(#[trigger] u[b]),
        ) by {
            assert(model_key(u[a]) == p[a].0);
            assert(model_key(u[b]) == p[b].0);
        }
        assert forall|t: int| 0 <= t < u.len() implies first_sites(all).contains_key(
            model_key(#[trigger] u[t]),
        ) && first_sites(all)[model_key(u[t])] == u[t] by {
            assert(model_key(u[t]) == p[t].0);
            assert(map_of(p).contains_key(p[t].0));
        }
        assert forall|k: Seq<char>| #[trigger] first_sites(all).contains_key(k) implies exists|t: int|
            0 <= t < u.len() && model_key(u[t]) == k by {
            assert(map_of(p).contains_key(k));
            let t = choose|t: int| 0 <= t < p.len() && p[t].0 == k;
            assert(model_key(u[t]) == p[t].0);
        }
    }
    out
}

/// `f` can supply the value of `target` read with `arity` arguments: it
/// takes that many, its name matches once underscores and case are ignored,
/// and, where `views_only`, it does not change state.
pub open spec fn getter_matches(f: FunctionSpec, target: Seq<char>, arity: nat, views_only: bool) -> bool {
    &&& f.inputs@.len() == arity
    &&& normalised(f.name@) == target
    &&& (views_only ==> !f.mutates_state)
}

/// The first function from index `i` on that matches.
pub open spec fn first_getter(
    fns: Seq<FunctionSpec>,
    target: Seq<char>,
    arity: nat,
    views_only: bool,
    i: int,
) -> Option<int>
    decreases fns.len() - i,
{
    if i < 0 || i >= fns.len() {
        None
    } else if getter_matches(fns[i], target, arity, views_only) {
        Some(i)
    } else {
        first_getter(fns, target, arity, views_only, i + 1)
    }
}

/// The getter that `name` read with `arity` arguments binds to: the first
/// matching view, else the first matching function at all, since a view
/// wrongly marked as mutating should still be readable.
pub open spec fn getter_index(fns: Seq<FunctionSpec>, name: Seq<char>, arity: nat) -> Option<int> {
    let target = normalised(name);
    if first_getter(fns, target, arity, true, 0) is Some {
        first_getter(fns, target, arity, true, 0)
    } else {
        first_getter(fns, target, arity, false, 0)
    }
}

/// The first matching function, scanning from the start.
fn first_getter_exec(
    target: &str,
    functions: &[FunctionSpec],
    arity: usize,
    views_only: bool,
) -> (r: Option<usize>)
    ensures
        match r {
            Some(i) => first_getter(functions@, target@, arity as nat, views_only, 0) == Some(
                i as int,
            ),
            None => first_getter(functions@, target@, arity as nat, views_only, 0) is None,
        },
{
    let mut i: usize = 0;
    while i < functions.len()
        invariant
            i <= functions@.len(),
            first_getter(functions@, target@, arity as nat, views_only, 0) == first_getter(
                functions@,
                target@,
                arity as nat,
                views_only,
                i as int,
            ),
        decreases functions.len() - i,
    {
        let f = &functions[i];
        if f.inputs.len() == arity && (!views_only || !f.mutates_state) {
            let n = normalise(f.name.as_str());
            if str_eq(n.as_str(), target) {
                return Some(i);
            }
        }
        i = i + 1;
    }
    None
}

/// The index of the getter `var` read with `arity` arguments binds to.
fn find_getter(var: &str, functions: &[FunctionSpec], arity: usize) -> (r: Option<usize>)
    ensures
        match r {
            Some(i) => getter_index(functions@, var@, arity as nat) == Some(i as int),
            None => getter_index(functions@, var@, arity as nat) is None,
        },
{
    let target = normalise(var);
    match first_getter_exec(target.as_str(), functions, arity, true) {
        Some(i) => Some(i),
        None => first_getter_exec(target.as_str(), functions, arity, false),
    }
}

/// `w` is the ABI word holding `v`: sixteen zero bytes, then `v` in
/// big-endian order.
pub open spec fn word_holds(w: Seq<u8>, v: int) -> bool {
    &&& w.len() == 32
    &&& forall|i: int| 0 <= i < 16 ==> #[trigger] w[i] == 0
    &&& be_value(w.subrange(16, 32)) == v
}

/// The message for a literal argument that no ABI word can hold.
pub open spec fn negative_argument_text(v: i128) -> Seq<char> {
    "negative argument "@ + int_text(v as int) + " is not encodable"@
}

proof fn lemma_be_value_prepend(b: u8, s: Seq<u8>)
    ensures
        be_value(seq![b] + s) == b * pow256(s.len()) + be_value(s),
    decreases s.len(),
{
    let t = seq![b] + s;
    if s.len() == 0 {
        assert(t.drop_last() =~= Seq::<u8>::empty());
        assert(t.last() == b);
        assert(be_value(Seq::<u8>::empty()) == 0);
        assert(pow256(0) == 1);
        assert(be_value(t) == be_value(t.drop_last()) * 256 + t.last());
    } else {
        assert(t.drop_last() =~= seq![b] + s.drop_last());
        assert(t.last() == s.last());
        lemma_be_value_prepend(b, s.drop_last());
        let p = pow256(s.drop_last().len());
        let x = be_value(s.drop_last());
        assert(pow256(s.len()) == 256 * p);
        assert(be_value(s) == x * 256 + s.last());
        assert(be_value(t) == be_value(t.drop_last()) * 256 + t.last());
        assert(be_value(t.drop_last()) == b * p + x);
        assert((b * p + x) * 256 + s.last() == b * (256 * p) + (x * 256 + s.last())) by (nonlinear_arith);
    }
}

/// Encodes a DSL integer literal as one ABI word for `kind`.
fn encode_literal(value: i128, kind: ParamKind) -> (r: Result<[u8; 32], String>)
    ensures
        match r {
            Ok(w) => value >= 0 && word_holds(w@, value as int),
            Err(m) => value < 0 && m@ == negative_argument_text(value),
        },
{
    if value < 0 {
        let mut m = string_from("negative argument ");
        push_i128(&mut m, value);
        push_str(&mut m, " is not encodable");
        return Err(m);
    }
    match kind {
        ParamKind::Uint256 | ParamKind::Bytes32 | ParamKind::Address | ParamKind::Bool => {},
    }
    let mut word: [u8; 32] = [0u8; 32];
    let mut rem: u128 = value as u128;
    let mut k: usize = 32;
    assert(word@.subrange(32, 32) =~= Seq::<u8>::empty());
    assert(be_value(Seq::<u8>::empty()) == 0);
    assert(pow256(0) == 1);
    assert(rem as int == value as int);
    assert(rem * pow256(0) == rem) by (nonlinear_arith)
        requires
            pow256(0) == 1,
    ;
    assert(word@.subrange(k as int, 32) =~= Seq::<u8>::empty());
    while k > 16
        invariant
            16 <= k <= 32,
            word@.len() == 32,
            forall|i: int| 0 <= i < k ==> #[trigger] word@[i] == 0,
            value as int == rem * pow256((32 - k) as nat) + be_value(word@.subrange(k as int, 32)),
        decreases k,
    {
        let ghost old_sub = word@.subrange(k as int, 32);
        let ghost old_rem = rem;
        k = k - 1;
        let b: u8 = (rem % 256) as u8;
        word[k] = b;
        rem = rem / 256;
        proof {
            assert(word@.subrange(k as int, 32) =~= seq![b] + old_sub);
            lemma_be_value_prepend(b, old_sub);
            let p = pow256((31 - k) as nat);
            assert(pow256((32 - k) as nat) == 256 * p);
            assert(old_rem == 256 * rem + b);
            assert(old_rem * p + be_value(old_sub) == rem * (256 * p) + (b * p + be_value(old_sub)))
                by (nonlinear_arith)
                requires
                    old_rem == 256 * rem + b,
            ;
        }
    }
    proof {
        lemma_be_value_bound(word@.subrange(16, 32));
        lemma_pow256_15_fits();
        assert(pow256(16) == 256 * pow256(15));
        if rem > 0 {
            assert(rem * pow256(16) >= pow256(16)) by (nonlinear_arith)
                requires
                    rem > 0,
            ;
        }
    }
    Ok(word)
}

proof fn lemma_first_getter_found(
    fns: Seq<FunctionSpec>,
    target: Seq<char>,
    arity: nat,
    views_only: bool,
    i: int,
)
    requires
        0 <= i,
        first_getter(fns, target, arity, views_only, i) is Some,
    ensures
        ({
            let j = first_getter(fns, target, arity, views_only, i)->0;
            i <= j < fns.len() && getter_matches(fns[j], target, arity, views_only)
        }),
    decreases fns.len() - i,
{
    if i < fns.len() && !getter_matches(fns[i], target, arity, views_only) {
        lemma_first_getter_found(fns, target, arity, views_only, i + 1);
    }
}

/// The arguments a site calls its getter with.
pub open spec fn site_args(site: SiteModel) -> Seq<i128> {
    match site {
        SiteModel::Var(_) => Seq::empty(),
        SiteModel::Call(_, a) => a,
    }
}

/// The index of the first negative argument from `i` on.
pub open spec fn first_negative(a: Seq<i128>, i: int) -> Option<int>
    decreases a.len() - i,
{
    if i < 0 || i >= a.len() {
        None
    } else if a[i] < 0 {
        Some(i)
    } else {
        first_negative(a, i + 1)
    }
}

/// What binding a site comes to: the index of the getter that supplies it,
/// or the text reported for it as unbound (the variable; `name/arity` for a
/// call with no getter of that arity; the message for a negative argument).
pub open spec fn site_resolution(site: SiteModel, fns: Seq<FunctionSpec>) -> Result<int, Seq<char>> {
    match site {
        SiteModel::Var(n) => match getter_index(fns, n, 0) {
            Some(i) => Ok(i),
            None => Err(n),
        },
        SiteModel::Call(n, a) => match getter_index(fns, n, a.len()) {
            None => Err(n + "/"@ + dec_digits(a.len())),
            Some(i) => match first_negative(a, 0) {
                Some(j) => Err(negative_argument_text(a[j])),
                None => Ok(i),
            },
        },
    }
}

/// One chain read backing a variable or a call of the expression.
#[derive(Debug)]
pub struct Read {
    /// How the read is written in the DSL; the evaluator sees its value
    /// under this name.
    pub key: String,
    /// The getter called.
    pub getter: FunctionSpec,
    /// ABI words for the getter's arguments, from literals in the DSL.
    pub args: Vec<[u8; 32]>,
}

/// `r` is the read that binding `site` against `fns` produces.
pub open spec fn read_is(r: Read, site: SiteModel, fns: Seq<FunctionSpec>) -> bool {
    &&& site_resolution(site, fns) is Ok
    &&& r.key@ == model_key(site)
    &&& same_function(r.getter, fns[site_resolution(site, fns)->Ok_0])
    &&& r.args@.len() == site_args(site).len()
    &&& forall|k: int|
        0 <= k < r.args@.len() ==> word_holds(#[trigger] r.args@[k]@, site_args(site)[k] as int)
}

/// Binds one site against the contract's functions.
fn resolve(site: &Site, functions: &[FunctionSpec]) -> (r: Result<Read, String>)
    ensures
        match r {
            Ok(read) => read_is(read, site@, functions@),
            Err(m) => site_resolution(site@, functions@) == Err::<int, Seq<char>>(m@),
        },
{
    match site {
        Site::Var(name) => match find_getter(name.as_str(), functions, 0) {
            Some(i) => {
                proof {
                    let t = normalised(name@);
                    if first_getter(functions@, t, 0, true, 0) is Some {
                        lemma_first_getter_found(functions@, t, 0, true, 0);
                    } else {
                        lemma_first_getter_found(functions@, t, 0, false, 0);
                    }
                }
                let read = Read { key: site.key(), getter: functions[i].clone(), args: Vec::new() };
                Ok(read)
            },
            None => Err(name.clone()),
        },
        Site::Call { name, args } => {
            match find_getter(name.as_str(), functions, args.len()) {
                None => {
                    let mut m = name.clone();
                    push_str(&mut m, "/");
                    let d = usize_to_string(args.len());
                    push_str(&mut m, d.as_str());
                    Err(m)
                },
                Some(i) => {
                    proof {
                        let t = normalised(name@);
                        let n = args@.len();
                        if first_getter(functions@, t, n, true, 0) is Some {
                            lemma_first_getter_found(functions@, t, n, true, 0);
                        } else {
                            lemma_first_getter_found(functions@, t, n, false, 0);
                        }
                    }
                    let f = &functions[i];
                    let mut words: Vec<[u8; 32]> = Vec::new();
                    let mut k: usize = 0;
                    while k < args.len()
                        invariant
                            k <= args@.len(),
                            words@.len() == k,
                            f.inputs@.len() == args@.len(),
                            getter_index(functions@, name@, args@.len()) == Some(i as int),
                            site@ == SiteModel::Call(name@, args@),
                            first_negative(args@, 0) == first_negative(args@, k as int),
                            forall|t: int|
                                0 <= t < k ==> word_holds(#[trigger] words@[t]@, args@[t] as int),
                        decreases args.len() - k,
                    {
                        match encode_literal(args[k], f.inputs[k]) {
                            Ok(w) => {
                                words.push(w);
                            },
                            Err(m) => {
                                assert(first_negative(args@, k as int) == Some(k as int));
                                return Err(m);
                            },
                        }
                        k = k + 1;
                    }
                    let read = Read { key: site.key(), getter: f.clone(), args: words };
                    Ok(read)
                },
            }
        },
    }
}

/// The texts reported as unbound for the sites of `u`, in order.
pub open spec fn unbound_texts(u: Seq<SiteModel>, fns: Seq<FunctionSpec>) -> Seq<Seq<char>>
    decreases u.len(),
{
    if u.len() == 0 {
        Seq::empty()
    } else {
        unbound_texts(u.drop_last(), fns) + match site_resolution(u.last(), fns) {
            Err(m) => seq![m],
            Ok(_) => Seq::empty(),
        }
    }
}

/// The names of the functions that take no argument, in order.
pub open spec fn getter_names(fns: Seq<FunctionSpec>) -> Seq<Seq<char>>
    decreases fns.len(),
{
    if fns.len() == 0 {
        Seq::empty()
    } else {
        getter_names(fns.drop_last()) + if fns.last().inputs@.len() == 0 {
            seq![fns.last().name@]
        } else {
            Seq::empty()
        }
    }
}

/// A DSL property bound to the getters that supply its values.
#[derive(Debug)]
pub struct DslInvariant {
    /// The property's name.
    pub label: String,
    /// The property.
    pub expression: Expression,
    /// The reads that supply its variables and calls, in ascending key order.
    pub reads: Vec<Read>,
}

/// `r` is what binding `spec` against `fns` comes to, where `u` lists the
/// property's reads in the order they are bound: every read binds, or the
/// error names each that does not, with the getters the contract offers.
pub open spec fn bind_is(
    r: Result<DslInvariant, BindError>,
    spec: DslSpec,
    fns: Seq<FunctionSpec>,
    u: Seq<SiteModel>,
) -> bool {
    match r {
        Ok(inv) => {
            &&& unbound_texts(u, fns).len() == 0
            &&& inv.label@ == spec.name@
            &&& same_expr(spec.expression, inv.expression)
            &&& inv.reads@.len() == u.len()
            &&& forall|j: int| 0 <= j < u.len() ==> read_is(#[trigger] inv.reads@[j], u[j], fns)
        },
        Err(e) => {
            &&& unbound_texts(u, fns).len() > 0
            &&& e.invariant@ == spec.name@
            &&& string_views(e.unbound@) == unbound_texts(u, fns)
            &&& string_views(e.available@) == getter_names(fns)
        },
    }
}

impl DslInvariant {
    /// Binds `spec` against `functions`, or reports every variable that has
    /// no matching getter. Each distinct read is bound once, in ascending
    /// order of its text.
    pub fn bind(spec: &DslSpec, functions: &[FunctionSpec]) -> (r: Result<Self, BindError>)
        ensures
            exists|u: Seq<SiteModel>|
                ordered_sites(sites_of(spec.expression), u) && bind_is(r, *spec, functions@, u),
    {
        let mut sites: Vec<Site> = Vec::new();
        collect_sites(&spec.expression, &mut sites);
        assert(site_views(sites@) =~= sites_of(spec.expression));
        let unique = unique_sites(&sites);
        let ghost u = site_views(unique@);
        let mut reads: Vec<Read> = Vec::new();
        let mut unbound: Vec<String> = Vec::new();
        let mut i: usize = 0;
        assert(u.subrange(0, 0) =~= Seq::<SiteModel>::empty());
        while i < unique.len()
            invariant
                i <= unique@.len(),
                u == site_views(unique@),
                string_views(unbound@) == unbound_texts(u.subrange(0, i as int), functions@),
                unbound@.len() == 0 ==> reads@.len() == i,
                unbound@.len() == 0 ==> forall|j: int|
                    0 <= j < i ==> read_is(#[trigger] reads@[j], u[j], functions@),
            decreases unique.len() - i,
        {
            let ghost pre = u.subrange(0, i as int);
            let ghost next = u.subrange(0, i as int + 1);
            assert(next.drop_last() =~= pre);
            assert(next.last() == unique@[i as int]@);
            match resolve(&unique[i], functions) {
                Ok(read) => {
                    reads.push(read);
                    assert(string_views(unbound@) =~= unbound_texts(next, functions@));
                },
                Err(why) => {
                    unbound.push(why);
                    assert(string_views(unbound@) =~= unbound_texts(next, functions@));
                },
            }
            i = i + 1;
        }
        assert(u.subrange(0, unique@.len() as int) =~= u);
        if unbound.len() > 0 {
            let mut available: Vec<String> = Vec::new();
            let mut k: usize = 0;
            assert(functions@.subrange(0, 0) =~= Seq::<FunctionSpec>::empty());
            while k < functions.len()
                invariant
                    k <= functions@.len(),
                    string_views(available@) == getter_names(functions@.subrange(0, k as int)),
                decreases functions.len() - k,
            {
                let ghost next = functions@.subrange(0, k as int + 1);
                assert(next.drop_last() =~= functions@.subrange(0, k as int));
                if functions[k].inputs.len() == 0 {
                    available.push(functions[k].name.clone());
                }
                assert(string_views(available@) =~= getter_names(next));
                k = k + 1;
            }
            assert(functions@.subrange(0, functions@.len() as int) =~= functions@);
            let e = BindError { invariant: spec.name.clone(), unbound, available };
            proof {
                assert(ordered_sites(sites_of(spec.expression), u) && bind_is(
                    Err::<DslInvariant, BindError>(e),
                    *spec,
                    functions@,
                    u,
                ));
            }
            return Err(e);
        }
        let inv = DslInvariant { label: spec.name.clone(), expression: spec.expression.clone(), reads };
        proof {
            assert(bind_is(Ok::<DslInvariant, BindError>(inv), *spec, functions@, u));
        }
        Ok(inv)
    }

    /// The property's name.
    pub fn name(&self) -> (r: &str)
        ensures
            r@ == self.label@,
    {
        self.label.as_str()
    }
}

/// The value a number read from the chain is evaluated as: a `U64` where it
/// fits, a `U128` otherwise.
pub open spec fn reading_value(v: u128) -> Value {
    if v <= u64::MAX {
        Value::U64(v as u64)
    } else {
        Value::U128(v)
    }
}

fn value_of(v: u128) -> (r: Value)
    ensures
        r == reading_value(v),
{
    if v <= 18446744073709551615u128 {
        Value::U64(v as u64)
    } else {
        Value::U128(v)
    }
}

/// The number a reply word holds, when it fits in 128 bits.
pub open spec fn word_number(w: Seq<u8>) -> Option<u128> {
    if forall|i: int| 0 <= i < 16 ==> #[trigger] w[i] == 0 {
        Some(be_value(w.subrange(16, 32)) as u128)
    } else {
        None
    }
}

/// The first read from index `i` on whose reply leaves the property
/// undecided: the getter reverted (`None`), or returned more than 128 bits.
pub open spec fn first_unreadable(replies: Seq<Option<[u8; 32]>>, i: int) -> Option<int>
    decreases replies.len() - i,
{
    if i < 0 || i >= replies.len() {
        None
    } else if replies[i] is None || word_number(replies[i]->0@) is None {
        Some(i)
    } else {
        first_unreadable(replies, i + 1)
    }
}

/// Why the read of the getter `name` left the property undecided.
pub open spec fn unreadable_text(name: Seq<char>, reply: Option<[u8; 32]>) -> Seq<char> {
    match reply {
        None => "getter "@ + name + "() reverted"@,
        Some(_) => name + "() exceeds 128 bits in this state"@,
    }
}

/// The numbers read by the first `n` reads, by key.
pub open spec fn observed_values(reads: Seq<Read>, replies: Seq<Option<[u8; 32]>>, n: int) -> Map<
    Seq<char>,
    u128,
>
    decreases n,
{
    if n <= 0 {
        Map::empty()
    } else {
        observed_values(reads, replies, n - 1).insert(
            reads[n - 1].key@,
            word_number(replies[n - 1]->0@)->0,
        )
    }
}

/// The evaluator's state after the first `n` reads.
pub open spec fn observed_state(reads: Seq<Read>, replies: Seq<Option<[u8; 32]>>, n: int) -> Map<
    Seq<char>,
    Value,
>
    decreases n,
{
    if n <= 0 {
        Map::empty()
    } else {
        observed_state(reads, replies, n - 1).insert(
            reads[n - 1].key@,
            reading_value(word_number(replies[n - 1]->0@)->0),
        )
    }
}

/// The expression with each call whose value was read replaced by that
/// value, so that the evaluator sees only variables and literals.
pub open spec fn substituted(e: Expression, obs: Map<Seq<char>, u128>) -> Expression
    decreases e,
{
    match e {
        Expression::FunctionCall { name, args } => match literal_args(args@) {
            Some(a) => if obs.contains_key(model_key(SiteModel::Call(name@, a))) {
                Expression::Int(obs[model_key(SiteModel::Call(name@, a))] as i128)
            } else {
                e
            },
            None => e,
        },
        Expression::BinaryOp { left, op, right } => Expression::BinaryOp {
            left: Box::new(substituted(*left, obs)),
            op,
            right: Box::new(substituted(*right, obs)),
        },
        Expression::Arithmetic { left, op, right } => Expression::Arithmetic {
            left: Box::new(substituted(*left, obs)),
            op,
            right: Box::new(substituted(*right, obs)),
        },
        Expression::Logical { left, op, right } => Expression::Logical {
            left: Box::new(substituted(*left, obs)),
            op,
            right: Box::new(substituted(*right, obs)),
        },
        Expression::Not(inner) => Expression::Not(Box::new(substituted(*inner, obs))),
        _ => e,
    }
}

/// Replaces each call whose value was read with that value.
fn substitute_calls(expr: &Expression, observed: &StrMap<u128>) -> (r: Expression)
    ensures
        same_expr(substituted(*expr, observed@), r),
    decreases expr,
{
    match expr {
        Expression::FunctionCall { name, args } => {
            match literal_args_of(args) {
                Some(a) => {
                    let site = Site::Call { name: name.clone(), args: a };
                    let key = site.key();
                    match observed.get(key.as_str()) {
                        Some(v) => {
                            return Expression::Int(#[verifier::truncate] (*v as i128));
                        },
                        None => {},
                    }
                },
                None => {},
            }
            expr.clone()
        },
        Expression::BinaryOp { left, op, right } => Expression::BinaryOp {
            left: Box::new(substitute_calls(left, observed)),
            op: *op,
            right: Box::new(substitute_calls(right, observed)),
        },
        Expression::Arithmetic { left, op, right } => Expression::Arithmetic {
            left: Box::new(substitute_calls(left, observed)),
            op: *op,
            right: Box::new(substitute_calls(right, observed)),
        },
        Expression::Logical { left, op, right } => Expression::Logical {
            left: Box::new(substitute_calls(left, observed)),
            op: *op,
            right: Box::new(substitute_calls(right, observed)),
        },
        Expression::Not(inner) => Expression::Not(Box::new(substitute_calls(inner, observed))),
        _ => expr.clone(),
    }
}

/// The result of checking a property against one contract state.
#[derive(Debug)]
pub enum Outcome {
    /// The property held.
    Holds,
    /// The property was false, with the state that broke it.
    Violated(String),
    /// The property could not be decided here; this is not a finding.
    Undecidable(String),
}

/// `r` is what checking `inv` comes to when its reads returned `replies`:
/// undecided at the first read that reverted or does not fit in 128 bits;
/// otherwise what the property, with each read call replaced by its value,
/// evaluates to over the values read.
pub open spec fn outcome_is(r: Outcome, inv: DslInvariant, replies: Seq<Option<[u8; 32]>>) -> bool {
    let n = inv.reads@.len() as int;
    match first_unreadable(replies, 0) {
        Some(j) => (r matches Outcome::Undecidable(t) && t@ == unreadable_text(
            inv.reads@[j].getter.name@,
            replies[j],
        )),
        None => {
            let obs = observed_values(inv.reads@, replies, n);
            let st = observed_state(inv.reads@, replies, n);
            match eval_expr(st, Set::empty(), no_native_calls(), substituted(inv.expression, obs)) {
                Some(Ok(ValueModel::Bool(true))) => r is Holds,
                Some(Ok(ValueModel::Bool(false))) => (r matches Outcome::Violated(t) && exists|
                    p: Seq<(Seq<char>, u128)>,
                | keys_ascending(p) && map_of(p) == obs && t@ == state_text(observed_parts(p))),
                Some(Ok(other)) => (r matches Outcome::Undecidable(t) && t@
                    == "expression evaluated to "@ + value_text(other) + ", not a boolean"@),
                Some(Err(e)) => (r matches Outcome::Undecidable(t) && t@ == "could not evaluate: "@
                    + evaluation_error_text(e)),
                None => false,
            }
        },
    }
}

impl DslInvariant {
    /// Decides the property from what its reads returned: `replies[j]` is
    /// the word the getter of `reads[j]` returned, or `None` where the call
    /// reverted. A state the binding cannot represent, or an expression
    /// that cannot be evaluated, leaves the property undecided: a limit of
    /// the check, never a violation.
    pub fn judge(&self, replies: &[Option<[u8; 32]>]) -> (r: Outcome)
        requires
            replies@.len() == self.reads@.len(),
        ensures
            outcome_is(r, *self, replies@),
    {
        let mut ctx = ExecutionContext::new();
        let mut observed: StrMap<u128> = StrMap::new();
        let mut j: usize = 0;
        while j < self.reads.len()
            invariant
                j <= self.reads@.len(),
                replies@.len() == self.reads@.len(),
                first_unreadable(replies@, 0) == first_unreadable(replies@, j as int),
                observed@ == observed_values(self.reads@, replies@, j as int),
                ctx.state_vars@ == observed_state(self.reads@, replies@, j as int),
                ctx.functions@ == Map::<Seq<char>, Box<dyn NativeFunction>>::empty(),
            decreases self.reads.len() - j,
        {
            let read = &self.reads[j];
            match &replies[j] {
                None => {
                    let mut m = string_from("getter ");
                    push_str(&mut m, read.getter.name.as_str());
                    push_str(&mut m, "() reverted");
                    return Outcome::Undecidable(m);
                },
                Some(w) => match u128_from_word(w) {
                    None => {
                        let mut m = read.getter.name.clone();
                        push_str(&mut m, "() exceeds 128 bits in this state");
                        return Outcome::Undecidable(m);
                    },
                    Some(v) => {
                        observed.insert(read.key.clone(), v);
                        ctx.set_state(read.key.clone(), value_of(v));
                    },
                },
            }
            j = j + 1;
        }
        let ghost obs = observed@;
        let ghost st = ctx.state_vars@;
        let expression = substitute_calls(&self.expression, &observed);
        let evaluator = Evaluator::new(ctx);
        proof {
            assert(evaluator.function_names() =~= Set::<Seq<char>>::empty());
            lemma_eval_same_expr(
                st,
                Set::empty(),
                no_native_calls(),
                substituted(self.expression, obs),
                expression,
            );
            lemma_eval_decided(st, evaluator.native_calls(), expression);
            lemma_eval_decided(st, no_native_calls(), substituted(self.expression, obs));
        }
        let result = evaluator.evaluate(&expression);
        match result {
            Ok(Value::Bool(true)) => Outcome::Holds,
            Ok(Value::Bool(false)) => {
                let _ = observed.len();
                let text = render_state(&observed);
                Outcome::Violated(text)
            },
            Ok(other) => {
                let mut m = string_from("expression evaluated to ");
                let t = other.to_string();
                push_str(&mut m, t.as_str());
                push_str(&mut m, ", not a boolean");
                Outcome::Undecidable(m)
            },
            Err(e) => {
                let mut m = string_from("could not evaluate: ");
                let t = e.to_string();
                push_str(&mut m, t.as_str());
                Outcome::Undecidable(m)
            },
        }
    }
}

} // verus!
