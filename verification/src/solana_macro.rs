//! The logic of the `#[invariant_enforced]` attribute for Solana programs:
//! reading the check expressions from the attribute's arguments, hashing
//! them for tamper detection, and checking that the function carries state.
//! The attribute itself only annotates; it does not yet inject checks.
use vstd::prelude::*;
use crate::strmap::string_views;
use crate::text::{chars_of, span_text, string_from};
use crate::threat_model::{checks_hash, TamperDetector};
use crate::words::{split_on, split_spans, trim_span, trimmed};

verus! {

/// One argument piece cleaned: trimmed of whitespace, then of double
/// quotes, then of single quotes.
pub open spec fn cleaned_check(piece: Seq<char>) -> Seq<char> {
    trimmed(trimmed(trimmed(piece, None), Some('"')), Some('\''))
}

/// The cleaned pieces that are not empty, in order.
pub open spec fn kept_checks(pieces: Seq<Seq<char>>) -> Seq<Seq<char>>
    decreases pieces.len(),
{
    if pieces.len() == 0 {
        Seq::empty()
    } else {
        let rest = kept_checks(pieces.drop_last());
        let c = cleaned_check(pieces.last());
        if c.len() > 0 {
            rest.push(c)
        } else {
            rest
        }
    }
}

/// The check expressions the attribute's arguments list: the arguments cut
/// at every comma, each piece cleaned, empty ones dropped.
pub open spec fn checks_of(args: Seq<char>) -> Seq<Seq<char>> {
    kept_checks(split_on(args, ','))
}

/// Reads the check expressions from the attribute's argument text, such as
/// `"balance >= 0", "supply > 0"`.
pub fn parse_invariant_checks(args: &str) -> (r: Vec<String>)
    ensures
        string_views(r@) == checks_of(args@),
{
    let v = chars_of(args);
    let spans = split_spans(&v, ',');
    let ghost pieces = split_on(v@, ',');
    let mut out: Vec<String> = Vec::new();
    let mut k: usize = 0;
    while k < spans.len()
        invariant
            k <= spans.len(),
            v@ == args@,
            pieces == split_on(v@, ','),
            spans@.len() == pieces.len(),
            forall|m: int| #![trigger spans@[m]]
                0 <= m < spans@.len() ==> spans@[m].0 <= spans@[m].1 <= v.len() && v@.subrange(
                    spans@[m].0 as int,
                    spans@[m].1 as int,
                ) == pieces[m],
            string_views(out@) == kept_checks(pieces.subrange(0, k as int)),
        decreases spans.len() - k,
    {
        let (a, b) = spans[k];
        let (a1, b1) = trim_span(&v, a, b, None);
        let (a2, b2) = trim_span(&v, a1, b1, Some('"'));
        let (a3, b3) = trim_span(&v, a2, b2, Some('\''));
        let ghost before = string_views(out@);
        proof {
            let sub = pieces.subrange(0, k + 1);
            assert(sub.drop_last() =~= pieces.subrange(0, k as int));
            assert(sub.last() == pieces[k as int]);
        }
        if a3 < b3 {
            out.push(span_text(&v, a3, b3));
            assert(string_views(out@) =~= before.push(v@.subrange(a3 as int, b3 as int)));
        }
        k = k + 1;
    }
    assert(pieces.subrange(0, pieces.len() as int) =~= pieces);
    out
}

/// The tamper-detection hash of a set of checks: the same for any order of
/// the same checks.
pub fn compute_check_hash(checks: &[String]) -> (r: String)
    ensures
        r@ == checks_hash(string_views(checks@)),
{
    TamperDetector::compute_hash(checks)
}

/// A parameter of the function the attribute is applied to, as far as the
/// attribute looks at it.
#[derive(Debug, Clone)]
pub enum FnParam {
    /// `self`, `&self` or `&mut self`.
    Receiver,
    /// A typed parameter: its name where its pattern is a plain identifier,
    /// and whether that binding is `mut`.
    Typed { ident: Option<String>, mutable: bool },
}

/// The names of the `mut` identifier parameters, in order.
pub open spec fn state_vars_of(params: Seq<FnParam>) -> Seq<Seq<char>>
    decreases params.len(),
{
    if params.len() == 0 {
        Seq::empty()
    } else {
        let rest = state_vars_of(params.drop_last());
        match params.last() {
            FnParam::Typed { ident: Some(n), mutable: true } => rest.push(n@),
            _ => rest,
        }
    }
}

/// Whether any parameter is a receiver.
pub open spec fn has_receiver(params: Seq<FnParam>) -> bool {
    exists|i: int| 0 <= i < params.len() && (#[trigger] params[i] is Receiver)
}

/// Checks that a function can carry enforced invariants: no receiver, and at
/// least one `mut` parameter holding state, whose names are returned.
pub fn validate_function_signature(params: &Vec<FnParam>) -> (r: Result<Vec<String>, String>)
    ensures
        has_receiver(params@) ==> (r matches Err(m) && m@
            == "Invariant-enforced functions cannot have &self/&mut self"@),
        !has_receiver(params@) && state_vars_of(params@).len() == 0 ==> (r matches Err(m) && m@
            == "Function must have at least one &mut parameter for state"@),
        !has_receiver(params@) && state_vars_of(params@).len() > 0 ==> (r matches Ok(v)
            && string_views(v@) == state_vars_of(params@)),
{
    let mut vars: Vec<String> = Vec::new();
    let mut i: usize = 0;
    while i < params.len()
        invariant
            i <= params.len(),
            forall|j: int| 0 <= j < i ==> !(#[trigger] params@[j] is Receiver),
            string_views(vars@) == state_vars_of(params@.subrange(0, i as int)),
        decreases params.len() - i,
    {
        let ghost before = string_views(vars@);
        proof {
            let sub = params@.subrange(0, i + 1);
            assert(sub.drop_last() =~= params@.subrange(0, i as int));
            assert(sub.last() == params@[i as int]);
        }
        match &params[i] {
            FnParam::Receiver => {
                return Err(string_from("Invariant-enforced functions cannot have &self/&mut self"));
            },
            FnParam::Typed { ident, mutable } => {
                if *mutable {
                    match ident {
                        Some(n) => {
                            vars.push(string_from(n.as_str()));
                            assert(string_views(vars@) =~= before.push(n@));
                        },
                        None => {},
                    }
                }
            },
        }
        i = i + 1;
    }
    assert(params@.subrange(0, params@.len() as int) =~= params@);
    if vars.len() == 0 {
        return Err(string_from("Function must have at least one &mut parameter for state"));
    }
    Ok(vars)
}

} // verus!
