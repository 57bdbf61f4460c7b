//! The invariant definition language.
//!
//! A definition reads `invariant Name (layer, ...) { expression }`, the layer
//! list being optional. The grammar is a parsing-expression grammar over
//! characters: alternatives are tried in order and the first that matches is
//! kept, repetitions take as much as they can, and spaces, tabs and line
//! breaks may stand between any two tokens. The spec functions below state
//! that grammar; `InvariantParser` parses by it and builds the `Invariant`.
use vstd::prelude::*;
use crate::error::InvarError;
use crate::model::{
    ArithOp, BinaryOp, Expression, Invariant, LogicalOp, arith_symbol, binary_symbol,
    lemma_same_exprs_from, logical_symbol, same_expr,
};
use crate::strmap::string_views;
use crate::text::{chars_of, occurs_at, span_text, string_from};

verus! {

// ---------------------------------------------------------------------------
// Characters and tokens
// ---------------------------------------------------------------------------
/// `s` holds `c` at `i`.
pub open spec fn char_at(s: Seq<char>, i: int, c: char) -> bool {
    0 <= i < s.len() && s[i] == c
}

/// The position after the whitespace that starts at `i`: spaces, tabs, `\n`
/// and `\r\n`.
pub open spec fn skip_ws(s: Seq<char>, i: int) -> int
    decreases s.len() - i,
{
    if 0 <= i < s.len() && (s[i] == ' ' || s[i] == '\t' || s[i] == '\n') {
        skip_ws(s, i + 1)
    } else if char_at(s, i, '\r') && char_at(s, i + 1, '\n') {
        skip_ws(s, i + 2)
    } else {
        i
    }
}

/// A letter or an underscore: what an identifier starts with.
pub open spec fn is_ident_start(c: char) -> bool {
    ('a' <= c && c <= 'z') || ('A' <= c && c <= 'Z') || c == '_'
}

/// A decimal digit.
pub open spec fn is_digit(c: char) -> bool {
    '0' <= c && c <= '9'
}

/// A letter, digit or underscore: what an identifier continues with.
pub open spec fn is_ident_char(c: char) -> bool {
    is_ident_start(c) || is_digit(c)
}

/// The end of the run of identifier characters that starts at `i`.
pub open spec fn ident_run(s: Seq<char>, i: int) -> int
    decreases s.len() - i,
{
    if 0 <= i < s.len() && is_ident_char(s[i]) {
        ident_run(s, i + 1)
    } else {
        i
    }
}

/// The end of the identifier that starts at `i`, if one does.
pub open spec fn ident_end(s: Seq<char>, i: int) -> Option<int> {
    if 0 <= i < s.len() && is_ident_start(s[i]) {
        Some(ident_run(s, i + 1))
    } else {
        None
    }
}

/// The end of the run of digits that starts at `i`.
pub open spec fn digit_run(s: Seq<char>, i: int) -> int
    decreases s.len() - i,
{
    if 0 <= i < s.len() && is_digit(s[i]) {
        digit_run(s, i + 1)
    } else {
        i
    }
}

/// The end of the integer literal (an optional `-`, then digits) that starts
/// at `i`, if one does.
pub open spec fn int_end(s: Seq<char>, i: int) -> Option<int> {
    let j = if char_at(s, i, '-') {
        i + 1
    } else {
        i
    };
    if 0 <= j < s.len() && is_digit(s[j]) {
        Some(digit_run(s, j + 1))
    } else {
        None
    }
}

/// The number a run of digits spells in decimal.
pub open spec fn digits_value(d: Seq<char>) -> nat
    decreases d.len(),
{
    if d.len() == 0 {
        0
    } else {
        (digits_value(d.drop_last()) * 10 + (d.last() as int - '0' as int)) as nat
    }
}

/// The value an integer literal's text spells.
pub open spec fn literal_value(t: Seq<char>) -> int {
    if t.len() > 0 && t[0] == '-' {
        -(digits_value(t.drop_first()) as int)
    } else {
        digits_value(t) as int
    }
}

/// The keyword that opens a definition.
pub open spec fn kw_invariant() -> Seq<char> {
    seq!['i', 'n', 'v', 'a', 'r', 'i', 'a', 'n', 't']
}

/// The literal `true`.
pub open spec fn kw_true() -> Seq<char> {
    seq!['t', 'r', 'u', 'e']
}

/// The literal `false`.
pub open spec fn kw_false() -> Seq<char> {
    seq!['f', 'a', 'l', 's', 'e']
}

/// The layer names, in the order the grammar tries them.
pub open spec fn layer_names() -> Seq<Seq<char>> {
    seq![
        seq!['b', 'u', 'n', 'd', 'l', 'e', 'r'],
        seq!['a', 'c', 'c', 'o', 'u', 'n', 't'],
        seq!['p', 'a', 'y', 'm', 'a', 's', 't', 'e', 'r'],
        seq!['p', 'r', 'o', 't', 'o', 'c', 'o', 'l'],
        seq!['e', 'n', 't', 'r', 'y', 'p', 'o', 'i', 'n', 't'],
    ]
}

/// The first layer name, from index `k` of the list on, that occurs at `i`.
pub open spec fn layer_from(s: Seq<char>, i: int, k: int) -> Option<int>
    decreases 5 - k,
{
    if k < 0 || k >= 5 {
        None
    } else if occurs_at(s, layer_names()[k], i) {
        Some(i + layer_names()[k].len())
    } else {
        layer_from(s, i, k + 1)
    }
}

/// The end of the layer name that starts at `i`, if one does.
pub open spec fn layer_end(s: Seq<char>, i: int) -> Option<int> {
    layer_from(s, i, 0)
}

// ---------------------------------------------------------------------------
// What a parse yields
// ---------------------------------------------------------------------------
/// An expression as the grammar reads it, names and numbers given by value.
pub enum Parsed {
    Bool(bool),
    Int(int),
    Var(Seq<char>),
    LayerVar(Seq<char>, Seq<char>),
    Compare(Box<Parsed>, BinaryOp, Box<Parsed>),
    Arith(Box<Parsed>, ArithOp, Box<Parsed>),
    Logic(Box<Parsed>, LogicalOp, Box<Parsed>),
    Call(Seq<char>, Seq<Parsed>),
}

/// Why a definition that fits the grammar still yields no expression.
#[derive(Debug, Clone, Copy, PartialEq, Eq, Structural)]
pub enum SemErr {
    /// The expression uses `!`, which has no meaning in an invariant.
    NotOperator,
    /// An integer literal does not fit in an `i128`.
    InvalidInteger,
}

/// An infix operator, by the chain it belongs to.
#[derive(Clone, Copy)]
pub enum Infix {
    Compare(BinaryOp),
    Arith(ArithOp),
    Logic(LogicalOp),
}

/// The node an infix operator builds from two operands.
pub open spec fn infix_node(l: Parsed, op: Infix, r: Parsed) -> Parsed {
    match op {
        Infix::Compare(o) => Parsed::Compare(Box::new(l), o, Box::new(r)),
        Infix::Arith(o) => Parsed::Arith(Box::new(l), o, Box::new(r)),
        Infix::Logic(o) => Parsed::Logic(Box::new(l), o, Box::new(r)),
    }
}

/// Joins two operands: the first error, left to right, or the node.
pub open spec fn join(l: Result<Parsed, SemErr>, op: Infix, r: Result<Parsed, SemErr>) -> Result<
    Parsed,
    SemErr,
> {
    match l {
        Err(e) => Err(e),
        Ok(a) => match r {
            Err(e) => Err(e),
            Ok(b) => Ok(infix_node(a, op, b)),
        },
    }
}

/// Appends an argument: the first error, left to right, or the list.
pub open spec fn push_arg(acc: Result<Seq<Parsed>, SemErr>, r: Result<Parsed, SemErr>) -> Result<
    Seq<Parsed>,
    SemErr,
> {
    match acc {
        Err(e) => Err(e),
        Ok(v) => match r {
            Err(e) => Err(e),
            Ok(x) => Ok(v.push(x)),
        },
    }
}

/// The value of an integer literal, if it fits in an `i128`.
pub open spec fn int_result(t: Seq<char>) -> Result<Parsed, SemErr> {
    let v = literal_value(t);
    if i128::MIN <= v && v <= i128::MAX {
        Ok(Parsed::Int(v))
    } else {
        Err(SemErr::InvalidInteger)
    }
}

/// The operator that continues a chain of level `l` at `k`, with its length.
/// Level 5 chains `||`, 4 chains `&&`, 3 the comparisons, 2 `+ -`, 1 `* /`.
pub open spec fn infix_at(s: Seq<char>, k: int, l: int) -> Option<(Infix, nat)> {
    if l == 5 {
        if char_at(s, k, '|') && char_at(s, k + 1, '|') {
            Some((Infix::Logic(LogicalOp::Or), 2))
        } else {
            None
        }
    } else if l == 4 {
        if char_at(s, k, '&') && char_at(s, k + 1, '&') {
            Some((Infix::Logic(LogicalOp::And), 2))
        } else {
            None
        }
    } else if l == 3 {
        if char_at(s, k, '=') && char_at(s, k + 1, '=') {
            Some((Infix::Compare(BinaryOp::Eq), 2))
        } else if char_at(s, k, '!') && char_at(s, k + 1, '=') {
            Some((Infix::Compare(BinaryOp::Neq), 2))
        } else if char_at(s, k, '<') && char_at(s, k + 1, '=') {
            Some((Infix::Compare(BinaryOp::Lte), 2))
        } else if char_at(s, k, '>') && char_at(s, k + 1, '=') {
            Some((Infix::Compare(BinaryOp::Gte), 2))
        } else if char_at(s, k, '<') {
            Some((Infix::Compare(BinaryOp::Lt), 1))
        } else if char_at(s, k, '>') {
            Some((Infix::Compare(BinaryOp::Gt), 1))
        } else {
            None
        }
    } else if l == 2 {
        if char_at(s, k, '+') {
            Some((Infix::Arith(ArithOp::Add), 1))
        } else if char_at(s, k, '-') {
            Some((Infix::Arith(ArithOp::Sub), 1))
        } else {
            None
        }
    } else if l == 1 {
        if char_at(s, k, '*') {
            Some((Infix::Arith(ArithOp::Mul), 1))
        } else if char_at(s, k, '/') {
            Some((Infix::Arith(ArithOp::Div), 1))
        } else {
            None
        }
    } else {
        None
    }
}

/// The end of the `!` repetition continuing at `j`.
pub open spec fn nots_run(s: Seq<char>, j: int) -> int
    decreases s.len() - j,
{
    let k = skip_ws(s, j);
    proof {
        lemma_skip_ws(s, j);
    }
    if char_at(s, k, '!') {
        nots_run(s, k + 1)
    } else {
        j
    }
}

/// A qualified (`layer::name`) or simple variable at `i`.
pub open spec fn var_at(s: Seq<char>, i: int) -> Option<(Result<Parsed, SemErr>, nat)> {
    let qualified = match layer_end(s, i) {
        Some(j) => {
            let k = skip_ws(s, j);
            if char_at(s, k, ':') && char_at(s, k + 1, ':') {
                let m = skip_ws(s, k + 2);
                match ident_end(s, m) {
                    Some(e) => Some(
                        (
                            Ok(Parsed::LayerVar(s.subrange(i, j), s.subrange(m, e))),
                            (e - i) as nat,
                        ),
                    ),
                    None => None,
                }
            } else {
                None
            }
        },
        None => None,
    };
    if qualified is Some {
        qualified
    } else {
        match ident_end(s, i) {
            Some(e) => Some((Ok(Parsed::Var(s.subrange(i, e))), (e - i) as nat)),
            None => None,
        }
    }
}

// ---------------------------------------------------------------------------
// Expressions
// ---------------------------------------------------------------------------
/// What remains of the input from `i` on, as a termination measure.
pub open spec fn rem(s: Seq<char>, i: int) -> int {
    if i <= s.len() {
        s.len() - i
    } else {
        0
    }
}

/// An atom at `i`: a call, a boolean, an integer or a variable, tried in that
/// order; with what it yields and how many characters it spans.
pub open spec fn atom(s: Seq<char>, i: int) -> Option<(Result<Parsed, SemErr>, nat)>
    decreases rem(s, i), 0int,
{
    let call = match ident_end(s, i) {
        Some(j) => {
            let k = skip_ws(s, j);
            if char_at(s, k, '(') {
                let p = skip_ws(s, k + 1);
                proof {
                    lemma_ident_run(s, i + 1);
                    lemma_skip_ws(s, j);
                    lemma_skip_ws(s, k + 1);
                }
                let (args, c) = call_args(s, p);
                let e = skip_ws(s, p + c);
                if char_at(s, e, ')') {
                    let node = match args {
                        Err(x) => Err(x),
                        Ok(v) => Ok(Parsed::Call(s.subrange(i, j), v)),
                    };
                    Some((node, (e + 1 - i) as nat))
                } else {
                    None
                }
            } else {
                None
            }
        },
        None => None,
    };
    if call is Some {
        call
    } else if occurs_at(s, kw_true(), i) {
        Some((Ok(Parsed::Bool(true)), 4))
    } else if occurs_at(s, kw_false(), i) {
        Some((Ok(Parsed::Bool(false)), 5))
    } else {
        match int_end(s, i) {
            Some(e) => Some((int_result(s.subrange(i, e)), (e - i) as nat)),
            None => var_at(s, i),
        }
    }
}

/// A primary at `i`: a parenthesised expression, else an atom.
pub open spec fn primary(s: Seq<char>, i: int) -> Option<(Result<Parsed, SemErr>, nat)>
    decreases rem(s, i), 1int,
{
    let paren = if char_at(s, i, '(') {
        let k = skip_ws(s, i + 1);
        proof {
            lemma_skip_ws(s, i + 1);
        }
        match chain(s, k, 5) {
            Some((r, c)) => {
                let e = skip_ws(s, k + c);
                if char_at(s, e, ')') {
                    Some((r, (e + 1 - i) as nat))
                } else {
                    None
                }
            },
            None => None,
        }
    } else {
        None
    };
    if paren is Some {
        paren
    } else {
        atom(s, i)
    }
}

/// The position where the primary of a unary at `i` starts, after any `!`.
pub open spec fn unary_operand_start(s: Seq<char>, i: int) -> int {
    if char_at(s, i, '!') {
        skip_ws(s, nots_run(s, i + 1))
    } else {
        skip_ws(s, i)
    }
}

/// A unary at `i`: `!`s, then a primary. A `!` fits the grammar but has no
/// meaning, so it yields an error.
pub open spec fn unary(s: Seq<char>, i: int) -> Option<(Result<Parsed, SemErr>, nat)>
    decreases rem(s, i), 2int,
{
    let p = unary_operand_start(s, i);
    proof {
        lemma_unary_operand_start(s, i);
    }
    match primary(s, p) {
        Some((r, c)) => Some(
            (
                if char_at(s, i, '!') {
                    Err(SemErr::NotOperator)
                } else {
                    r
                },
                (p - i + c) as nat,
            ),
        ),
        None => None,
    }
}

/// An operand of a chain of level `l`: a chain one level down, or a unary.
pub open spec fn operand(s: Seq<char>, i: int, l: int) -> Option<(Result<Parsed, SemErr>, nat)>
    decreases rem(s, i), 2 * l + 1,
{
    if l <= 1 {
        if l == 1 {
            unary(s, i)
        } else {
            None
        }
    } else if l <= 5 {
        chain(s, i, l - 1)
    } else {
        None
    }
}

/// A chain of level `l` at `i`: an operand, then as many (operator, operand)
/// pairs of that level as follow, grouped to the left.
pub open spec fn chain(s: Seq<char>, i: int, l: int) -> Option<(Result<Parsed, SemErr>, nat)>
    decreases rem(s, i), 2 * l + 2,
{
    if l < 1 || l > 5 {
        None
    } else {
        match operand(s, i, l) {
            Some((first, c)) => {
                let (fin, c2) = chain_rest(s, i + c, first, l);
                Some((fin, c + c2))
            },
            None => None,
        }
    }
}

/// The (operator, operand) pairs of a chain of level `l` from `j` on, folded
/// into `acc`; with what they span.
pub open spec fn chain_rest(s: Seq<char>, j: int, acc: Result<Parsed, SemErr>, l: int) -> (
    Result<Parsed, SemErr>,
    nat,
)
    decreases rem(s, j), 2 * l + 1,
{
    if l < 1 || l > 5 {
        (acc, 0)
    } else {
        let k0 = skip_ws(s, j);
        match infix_at(s, k0, l) {
            Some((op, n)) => {
                let k1 = skip_ws(s, k0 + n);
                proof {
                    lemma_skip_ws(s, j);
                    lemma_skip_ws(s, k0 + n);
                }
                match operand(s, k1, l) {
                    Some((r, c)) => {
                        let (fin, c2) = chain_rest(s, k1 + c, join(acc, op, r), l);
                        (fin, (k1 + c + c2 - j) as nat)
                    },
                    None => (acc, 0),
                }
            },
            None => (acc, 0),
        }
    }
}

/// The optional arguments of a call at `p`: the list, or the first error in
/// it, and what it spans.
pub open spec fn call_args(s: Seq<char>, p: int) -> (Result<Seq<Parsed>, SemErr>, nat)
    decreases rem(s, p), 14int,
{
    match chain(s, p, 5) {
        Some((r, c)) => {
            let (fin, c2) = args_rest(s, p + c, push_arg(Ok(Seq::empty()), r));
            (fin, c + c2)
        },
        None => (Ok(Seq::empty()), 0),
    }
}

/// The `, expression` pairs of an argument list from `q` on.
pub open spec fn args_rest(s: Seq<char>, q: int, acc: Result<Seq<Parsed>, SemErr>) -> (
    Result<Seq<Parsed>, SemErr>,
    nat,
)
    decreases rem(s, q), 13int,
{
    let k0 = skip_ws(s, q);
    if char_at(s, k0, ',') {
        let k1 = skip_ws(s, k0 + 1);
        proof {
            lemma_skip_ws(s, q);
            lemma_skip_ws(s, k0 + 1);
        }
        match chain(s, k1, 5) {
            Some((r, c)) => {
                let (fin, c2) = args_rest(s, k1 + c, push_arg(acc, r));
                (fin, (k1 + c + c2 - q) as nat)
            },
            None => (acc, 0),
        }
    } else {
        (acc, 0)
    }
}

/// An expression at `i`: a chain of `||`.
pub open spec fn expression_at(s: Seq<char>, i: int) -> Option<(Result<Parsed, SemErr>, nat)> {
    chain(s, i, 5)
}

// ---------------------------------------------------------------------------
// Definitions
// ---------------------------------------------------------------------------
/// The `, layer` pairs of a layer list from `q` on, appended to `acc`, and the
/// position after them.
pub open spec fn layer_rest(s: Seq<char>, q: int, acc: Seq<Seq<char>>) -> (Seq<Seq<char>>, int)
    decreases s.len() - q,
{
    let k0 = skip_ws(s, q);
    if char_at(s, k0, ',') {
        let k1 = skip_ws(s, k0 + 1);
        proof {
            lemma_skip_ws(s, q);
            lemma_skip_ws(s, k0 + 1);
            lemma_layer_from(s, k1, 0);
        }
        match layer_end(s, k1) {
            Some(e) => layer_rest(s, e, acc.push(s.subrange(k1, e))),
            None => (acc, q),
        }
    } else {
        (acc, q)
    }
}

/// The parenthesised layer list at `c`, if there is one, and the position
/// after it.
pub open spec fn layer_group(s: Seq<char>, c: int) -> Option<(Seq<Seq<char>>, int)> {
    if char_at(s, c, '(') {
        let p = skip_ws(s, c + 1);
        match layer_end(s, p) {
            Some(q) => {
                let (names, r) = layer_rest(s, q, seq![s.subrange(p, q)]);
                let e = skip_ws(s, r);
                if char_at(s, e, ')') {
                    Some((names, e + 1))
                } else {
                    None
                }
            },
            None => None,
        }
    } else {
        None
    }
}

/// A definition read from the start of `s`: its name, its layers and what its
/// expression yields; `None` where `s` does not start with one. What follows
/// the closing brace is not read.
pub open spec fn definition(s: Seq<char>) -> Option<
    (Seq<char>, Seq<Seq<char>>, Result<Parsed, SemErr>),
> {
    if !occurs_at(s, kw_invariant(), 0) {
        None
    } else {
        let a = skip_ws(s, 9);
        match ident_end(s, a) {
            Some(b) => {
                let c = skip_ws(s, b);
                let (layers, d) = match layer_group(s, c) {
                    Some((ls, e)) => (ls, e),
                    None => (Seq::empty(), c),
                };
                let f = skip_ws(s, d);
                if !char_at(s, f, '{') {
                    None
                } else {
                    let g = skip_ws(s, f + 1);
                    match expression_at(s, g) {
                        Some((r, n)) => {
                            let h = skip_ws(s, g + n);
                            if char_at(s, h, '}') {
                                Some((s.subrange(a, b), layers, r))
                            } else {
                                None
                            }
                        },
                        None => None,
                    }
                }
            },
            None => None,
        }
    }
}

// ---------------------------------------------------------------------------
// Lemmas on positions
// ---------------------------------------------------------------------------
pub proof fn lemma_skip_ws(s: Seq<char>, i: int)
    ensures
        i <= skip_ws(s, i),
        0 <= i <= s.len() ==> skip_ws(s, i) <= s.len(),
        !(0 <= i < s.len()) ==> skip_ws(s, i) == i,
    decreases s.len() - i,
{
    if 0 <= i < s.len() && (s[i] == ' ' || s[i] == '\t' || s[i] == '\n') {
        lemma_skip_ws(s, i + 1);
    } else if char_at(s, i, '\r') && char_at(s, i + 1, '\n') {
        lemma_skip_ws(s, i + 2);
    }
}

pub proof fn lemma_ident_run(s: Seq<char>, i: int)
    ensures
        i <= ident_run(s, i),
        0 <= i <= s.len() ==> ident_run(s, i) <= s.len(),
    decreases s.len() - i,
{
    if 0 <= i < s.len() && is_ident_char(s[i]) {
        lemma_ident_run(s, i + 1);
    }
}

pub proof fn lemma_digit_run(s: Seq<char>, i: int)
    ensures
        i <= digit_run(s, i),
        0 <= i <= s.len() ==> digit_run(s, i) <= s.len(),
    decreases s.len() - i,
{
    if 0 <= i < s.len() && is_digit(s[i]) {
        lemma_digit_run(s, i + 1);
    }
}

pub proof fn lemma_layer_from(s: Seq<char>, i: int, k: int)
    ensures
        layer_from(s, i, k) matches Some(e) ==> i < e <= s.len(),
    decreases 5 - k,
{
    if 0 <= k < 5 && !occurs_at(s, layer_names()[k], i) {
        lemma_layer_from(s, i, k + 1);
    }
}

pub proof fn lemma_nots_run(s: Seq<char>, j: int)
    ensures
        j <= nots_run(s, j),
        0 <= j <= s.len() ==> nots_run(s, j) <= s.len(),
    decreases s.len() - j,
{
    let k = skip_ws(s, j);
    lemma_skip_ws(s, j);
    if char_at(s, k, '!') {
        lemma_nots_run(s, k + 1);
    }
}

pub proof fn lemma_unary_operand_start(s: Seq<char>, i: int)
    ensures
        i <= unary_operand_start(s, i),
        0 <= i <= s.len() ==> unary_operand_start(s, i) <= s.len(),
        unary_operand_start(s, i) == i || (0 <= i < s.len()),
{
    if char_at(s, i, '!') {
        lemma_nots_run(s, i + 1);
        lemma_skip_ws(s, nots_run(s, i + 1));
    } else {
        lemma_skip_ws(s, i);
    }
}

// ---------------------------------------------------------------------------
// Scanning
// ---------------------------------------------------------------------------
/// `skip_ws`, computed.
fn skip_ws_x(s: &Vec<char>, i: usize) -> (r: usize)
    requires
        i <= s.len(),
    ensures
        r == skip_ws(s@, i as int),
        i <= r <= s.len(),
{
    let mut j = i;
    while j < s.len() && (s[j] == ' ' || s[j] == '\t' || s[j] == '\n' || (s[j] == '\r' && j + 1
        < s.len() && s[j + 1] == '\n'))
        invariant
            i <= j <= s.len(),
            skip_ws(s@, j as int) == skip_ws(s@, i as int),
        decreases s.len() - j,
    {
        if s[j] == '\r' {
            j = j + 2;
        } else {
            j = j + 1;
        }
    }
    j
}

fn is_ident_start_x(c: char) -> (r: bool)
    ensures
        r == is_ident_start(c),
{
    ('a' <= c && c <= 'z') || ('A' <= c && c <= 'Z') || c == '_'
}

fn is_digit_x(c: char) -> (r: bool)
    ensures
        r == is_digit(c),
{
    '0' <= c && c <= '9'
}

/// `ident_end`, computed.
fn ident_end_x(s: &Vec<char>, i: usize) -> (r: Option<usize>)
    requires
        i <= s.len(),
    ensures
        match r {
            Some(e) => ident_end(s@, i as int) == Some(e as int) && i < e <= s.len(),
            None => ident_end(s@, i as int) is None,
        },
{
    if i < s.len() && is_ident_start_x(s[i]) {
        let mut j = i + 1;
        while j < s.len() && (is_ident_start_x(s[j]) || is_digit_x(s[j]))
            invariant
                i < j <= s.len(),
                ident_run(s@, j as int) == ident_run(s@, i + 1),
            decreases s.len() - j,
        {
            j = j + 1;
        }
        Some(j)
    } else {
        None
    }
}

/// `int_end`, computed.
fn int_end_x(s: &Vec<char>, i: usize) -> (r: Option<usize>)
    requires
        i <= s.len(),
    ensures
        match r {
            Some(e) => int_end(s@, i as int) == Some(e as int) && i < e <= s.len(),
            None => int_end(s@, i as int) is None,
        },
{
    let j = if i < s.len() && s[i] == '-' {
        i + 1
    } else {
        i
    };
    if j < s.len() && is_digit_x(s[j]) {
        let mut k = j + 1;
        while k < s.len() && is_digit_x(s[k])
            invariant
                j < k <= s.len(),
                digit_run(s@, k as int) == digit_run(s@, j + 1),
            decreases s.len() - k,
        {
            k = k + 1;
        }
        Some(k)
    } else {
        None
    }
}

/// Whether `t` occurs in `s` at `i`.
fn occurs_x(s: &Vec<char>, t: &Vec<char>, i: usize) -> (r: bool)
    ensures
        r == occurs_at(s@, t@, i as int),
{
    crate::text::matches_at(s, t, i)
}

/// The layer names, as character vectors.
fn layer_names_x() -> (r: Vec<Vec<char>>)
    ensures
        r@.len() == 5,
        forall|k: int| 0 <= k < 5 ==> (#[trigger] r@[k])@ == layer_names()[k],
{
    let v = vec![
        vec!['b', 'u', 'n', 'd', 'l', 'e', 'r'],
        vec!['a', 'c', 'c', 'o', 'u', 'n', 't'],
        vec!['p', 'a', 'y', 'm', 'a', 's', 't', 'e', 'r'],
        vec!['p', 'r', 'o', 't', 'o', 'c', 'o', 'l'],
        vec!['e', 'n', 't', 'r', 'y', 'p', 'o', 'i', 'n', 't'],
    ];
    assert(v@[0]@ == layer_names()[0]);
    assert(v@[1]@ == layer_names()[1]);
    assert(v@[2]@ == layer_names()[2]);
    assert(v@[3]@ == layer_names()[3]);
    assert(v@[4]@ == layer_names()[4]);
    v
}

/// `layer_end`, computed.
fn layer_end_x(s: &Vec<char>, i: usize) -> (r: Option<usize>)
    requires
        i <= s.len(),
    ensures
        match r {
            Some(e) => layer_end(s@, i as int) == Some(e as int) && i < e <= s.len(),
            None => layer_end(s@, i as int) is None,
        },
{
    let names = layer_names_x();
    let mut k: usize = 0;
    while k < 5
        invariant
            k <= 5,
            i <= s.len(),
            names@.len() == 5,
            forall|m: int| 0 <= m < 5 ==> (#[trigger] names@[m])@ == layer_names()[m],
            layer_from(s@, i as int, k as int) == layer_from(s@, i as int, 0),
        decreases 5 - k,
    {
        if occurs_x(s, &names[k], i) {
            proof {
                lemma_layer_from(s@, i as int, k as int);
            }
            return Some(i + names[k].len());
        }
        k = k + 1;
    }
    None
}

// ---------------------------------------------------------------------------
// Parsed values against built expressions
// ---------------------------------------------------------------------------
/// `e` is the expression `p` describes.
pub open spec fn expr_is(e: Expression, p: Parsed) -> bool
    decreases e, 1int,
{
    match e {
        Expression::Boolean(b) => p == Parsed::Bool(b),
        Expression::Int(v) => p == Parsed::Int(v as int),
        Expression::Var(n) => p == Parsed::Var(n@),
        Expression::LayerVar { layer, var } => p == Parsed::LayerVar(layer@, var@),
        Expression::BinaryOp { left, op, right } => match p {
            Parsed::Compare(l, o, r) => o == op && expr_is(*left, *l) && expr_is(*right, *r),
            _ => false,
        },
        Expression::Arithmetic { left, op, right } => match p {
            Parsed::Arith(l, o, r) => o == op && expr_is(*left, *l) && expr_is(*right, *r),
            _ => false,
        },
        Expression::Logical { left, op, right } => match p {
            Parsed::Logic(l, o, r) => o == op && expr_is(*left, *l) && expr_is(*right, *r),
            _ => false,
        },
        Expression::FunctionCall { name, args } => match p {
            Parsed::Call(n, ps) => n == name@ && args_are(args@, ps),
            _ => false,
        },
        _ => false,
    }
}

/// Each of `args` is the expression the matching entry of `ps` describes.
pub open spec fn args_are(args: Seq<Expression>, ps: Seq<Parsed>) -> bool
    decreases args, 0int,
{
    if args.len() == 0 {
        ps.len() == 0
    } else {
        ps.len() == args.len() && expr_is(args.last(), ps.last()) && args_are(
            args.drop_last(),
            ps.drop_last(),
        )
    }
}

/// The message of an error that fits the grammar.
pub open spec fn sem_error_text(k: SemErr) -> Seq<char> {
    match k {
        SemErr::NotOperator => "Unexpected rule: not"@,
        SemErr::InvalidInteger => "Invalid integer"@,
    }
}

/// `x` is the error `k` is reported as.
pub open spec fn error_is(x: InvarError, k: SemErr) -> bool {
    x matches InvarError::ConfigError(m) && m@ == sem_error_text(k)
}

/// `r` is the outcome `p` describes.
pub open spec fn result_is(r: Result<Expression, InvarError>, p: Result<Parsed, SemErr>) -> bool {
    match r {
        Ok(e) => p matches Ok(q) && expr_is(e, q),
        Err(x) => p matches Err(k) && error_is(x, k),
    }
}

/// `r` is the argument list, or the error, `p` describes.
pub open spec fn list_is(r: Result<Vec<Expression>, InvarError>, p: Result<Seq<Parsed>, SemErr>) -> bool {
    match r {
        Ok(v) => p matches Ok(q) && args_are(v@, q),
        Err(x) => p matches Err(k) && error_is(x, k),
    }
}

/// A parse from `i` that ended at `e`, or failed, is what `sp` says.
pub open spec fn step_is(
    r: Option<(Result<Expression, InvarError>, usize)>,
    sp: Option<(Result<Parsed, SemErr>, nat)>,
    i: int,
) -> bool {
    match r {
        None => sp is None,
        Some((x, e)) => sp matches Some((q, c)) && e == i + c && result_is(x, q),
    }
}

// ---------------------------------------------------------------------------
// Parsing
// ---------------------------------------------------------------------------
fn sem_error(k: SemErr) -> (r: InvarError)
    ensures
        error_is(r, k),
{
    match k {
        SemErr::NotOperator => InvarError::ConfigError(string_from("Unexpected rule: not")),
        SemErr::InvalidInteger => InvarError::ConfigError(string_from("Invalid integer")),
    }
}

/// Joins two operand outcomes, as `join` does.
fn join_x(l: Result<Expression, InvarError>, op: Infix, r: Result<Expression, InvarError>) -> (res:
    Result<Expression, InvarError>)
    ensures
        forall|pl: Result<Parsed, SemErr>, pr: Result<Parsed, SemErr>|
            result_is(l, pl) && result_is(r, pr) ==> result_is(res, join(pl, op, pr)),
{
    match l {
        Err(x) => Err(x),
        Ok(a) => match r {
            Err(x) => Err(x),
            Ok(b) => Ok(
                match op {
                    Infix::Compare(o) => Expression::BinaryOp {
                        left: Box::new(a),
                        op: o,
                        right: Box::new(b),
                    },
                    Infix::Arith(o) => Expression::Arithmetic {
                        left: Box::new(a),
                        op: o,
                        right: Box::new(b),
                    },
                    Infix::Logic(o) => Expression::Logical {
                        left: Box::new(a),
                        op: o,
                        right: Box::new(b),
                    },
                },
            ),
        },
    }
}

/// `infix_at`, computed.
fn infix_x(s: &Vec<char>, k: usize, l: u8) -> (r: Option<(Infix, usize)>)
    requires
        k <= s.len(),
    ensures
        match r {
            Some((op, n)) => infix_at(s@, k as int, l as int) == Some((op, n as nat)) && k + n
                <= s.len() && n >= 1,
            None => infix_at(s@, k as int, l as int) is None,
        },
{
    if k >= s.len() {
        return None;
    }
    let c = s[k];
    let d = if k + 1 < s.len() {
        s[k + 1]
    } else {
        ' '
    };
    let two = k + 1 < s.len();
    if l == 5 {
        if c == '|' && two && d == '|' {
            Some((Infix::Logic(LogicalOp::Or), 2))
        } else {
            None
        }
    } else if l == 4 {
        if c == '&' && two && d == '&' {
            Some((Infix::Logic(LogicalOp::And), 2))
        } else {
            None
        }
    } else if l == 3 {
        if c == '=' && two && d == '=' {
            Some((Infix::Compare(BinaryOp::Eq), 2))
        } else if c == '!' && two && d == '=' {
            Some((Infix::Compare(BinaryOp::Neq), 2))
        } else if c == '<' && two && d == '=' {
            Some((Infix::Compare(BinaryOp::Lte), 2))
        } else if c == '>' && two && d == '=' {
            Some((Infix::Compare(BinaryOp::Gte), 2))
        } else if c == '<' {
            Some((Infix::Compare(BinaryOp::Lt), 1))
        } else if c == '>' {
            Some((Infix::Compare(BinaryOp::Gt), 1))
        } else {
            None
        }
    } else if l == 2 {
        if c == '+' {
            Some((Infix::Arith(ArithOp::Add), 1))
        } else if c == '-' {
            Some((Infix::Arith(ArithOp::Sub), 1))
        } else {
            None
        }
    } else if l == 1 {
        if c == '*' {
            Some((Infix::Arith(ArithOp::Mul), 1))
        } else if c == '/' {
            Some((Infix::Arith(ArithOp::Div), 1))
        } else {
            None
        }
    } else {
        None
    }
}

pub proof fn lemma_digit_run_all(s: Seq<char>, i: int)
    ensures
        forall|k: int| i <= k < digit_run(s, i) ==> is_digit(#[trigger] s[k]) && 0 <= k < s.len(),
    decreases s.len() - i,
{
    if 0 <= i < s.len() && is_digit(s[i]) {
        lemma_digit_run_all(s, i + 1);
    }
}

/// The value of the integer literal spanning `i..e`.
fn int_literal_x(s: &Vec<char>, i: usize, e: usize) -> (r: Result<Expression, InvarError>)
    requires
        i < e <= s.len(),
        int_end(s@, i as int) == Some(e as int),
    ensures
        result_is(r, int_result(s@.subrange(i as int, e as int))),
{
    let neg = s[i] == '-';
    let j = if neg {
        i + 1
    } else {
        i
    };
    proof {
        lemma_digit_run_all(s@, j + 1);
    }
    let mut acc: u128 = 0;
    let mut over = false;
    let mut k = j;
    assert(s@.subrange(j as int, j as int) =~= Seq::<char>::empty());
    while k < e
        invariant
            j <= k <= e <= s.len(),
            is_digit(s@[j as int]),
            forall|m: int| j + 1 <= m < e ==> is_digit(#[trigger] s@[m]),
            !over ==> acc == digits_value(s@.subrange(j as int, k as int)),
            over ==> digits_value(s@.subrange(j as int, k as int)) > u128::MAX,
        decreases e - k,
    {
        let c = s[k];
        assert(is_digit(c));
        let d = (c as u32 - '0' as u32) as u128;
        let ghost sub = s@.subrange(j as int, k + 1);
        assert(sub.drop_last() =~= s@.subrange(j as int, k as int));
        assert(sub.last() == c);
        if !over {
            if acc > (u128::MAX - d) / 10 {
                over = true;
            } else {
                acc = acc * 10 + d;
            }
        }
        k = k + 1;
    }
    let ghost t = s@.subrange(i as int, e as int);
    proof {
        if neg {
            assert(t.drop_first() =~= s@.subrange(j as int, e as int));
        } else {
            assert(t =~= s@.subrange(j as int, e as int));
        }
    }
    if over {
        Err(sem_error(SemErr::InvalidInteger))
    } else if neg {
        if acc <= 0x8000_0000_0000_0000_0000_0000_0000_0000 {
            let v: i128 = if acc == 0x8000_0000_0000_0000_0000_0000_0000_0000 {
                i128::MIN
            } else {
                -(acc as i128)
            };
            Ok(Expression::Int(v))
        } else {
            Err(sem_error(SemErr::InvalidInteger))
        }
    } else if acc <= 0x7fff_ffff_ffff_ffff_ffff_ffff_ffff_ffff {
        Ok(Expression::Int(acc as i128))
    } else {
        Err(sem_error(SemErr::InvalidInteger))
    }
}

/// `var_at`, computed.
fn var_x(s: &Vec<char>, i: usize) -> (r: Option<(Result<Expression, InvarError>, usize)>)
    requires
        i <= s.len(),
    ensures
        step_is(r, var_at(s@, i as int), i as int),
        r matches Some((_, e)) ==> e <= s.len(),
{
    match layer_end_x(s, i) {
        Some(j) => {
            let k = skip_ws_x(s, j);
            if k < s.len() && s[k] == ':' && k + 1 < s.len() && s[k + 1] == ':' {
                let m = skip_ws_x(s, k + 2);
                match ident_end_x(s, m) {
                    Some(e) => {
                        let layer = span_text(s, i, j);
                        let var = span_text(s, m, e);
                        return Some((Ok(Expression::LayerVar { layer, var }), e));
                    },
                    None => {},
                }
            }
        },
        None => {},
    }
    match ident_end_x(s, i) {
        Some(e) => Some((Ok(Expression::Var(span_text(s, i, e))), e)),
        None => None,
    }
}

/// Appends an argument outcome, as `push_arg` does.
fn push_x(acc: Result<Vec<Expression>, InvarError>, r: Result<Expression, InvarError>) -> (res:
    Result<Vec<Expression>, InvarError>)
    ensures
        forall|pa: Result<Seq<Parsed>, SemErr>, pr: Result<Parsed, SemErr>|
            list_is(acc, pa) && result_is(r, pr) ==> list_is(res, push_arg(pa, pr)),
{
    let ghost acc0 = acc;
    let ghost r0 = r;
    let res = match acc {
        Err(x) => Err(x),
        Ok(v) => match r {
            Err(x) => Err(x),
            Ok(a) => {
                let mut w = v;
                let ghost old_w = w@;
                w.push(a);
                proof {
                    assert(w@.drop_last() =~= old_w);
                }
                Ok(w)
            },
        },
    };
    proof {
        assert forall|pa: Result<Seq<Parsed>, SemErr>, pr: Result<Parsed, SemErr>|
            list_is(acc0, pa) && result_is(r0, pr) implies list_is(res, push_arg(pa, pr)) by {
            if acc0 is Ok && r0 is Ok {
                let q = pa->Ok_0;
                let x = pr->Ok_0;
                assert(q.push(x).drop_last() =~= q);
            }
        }
    }
    res
}

/// `atom`, computed.
fn atom_x(s: &Vec<char>, i: usize) -> (r: Option<(Result<Expression, InvarError>, usize)>)
    requires
        i <= s.len(),
    ensures
        step_is(r, atom(s@, i as int), i as int),
        r matches Some((_, e)) ==> e <= s.len(),
    decreases s.len() - i, 0int,
{
    match ident_end_x(s, i) {
        Some(j) => {
            let k = skip_ws_x(s, j);
            if k < s.len() && s[k] == '(' {
                let p = skip_ws_x(s, k + 1);
                let (args, q) = call_args_x(s, p);
                let e = skip_ws_x(s, q);
                if e < s.len() && s[e] == ')' {
                    let node = match args {
                        Err(x) => Err(x),
                        Ok(v) => Ok(Expression::FunctionCall { name: span_text(s, i, j), args: v }),
                    };
                    return Some((node, e + 1));
                }
            }
        },
        None => {},
    }
    let t = vec!['t', 'r', 'u', 'e'];
    if occurs_x(s, &t, i) {
        return Some((Ok(Expression::Boolean(true)), i + 4));
    }
    let f = vec!['f', 'a', 'l', 's', 'e'];
    if occurs_x(s, &f, i) {
        return Some((Ok(Expression::Boolean(false)), i + 5));
    }
    match int_end_x(s, i) {
        Some(e) => Some((int_literal_x(s, i, e), e)),
        None => var_x(s, i),
    }
}

/// `primary`, computed.
fn primary_x(s: &Vec<char>, i: usize) -> (r: Option<(Result<Expression, InvarError>, usize)>)
    requires
        i <= s.len(),
    ensures
        step_is(r, primary(s@, i as int), i as int),
        r matches Some((_, e)) ==> e <= s.len(),
    decreases s.len() - i, 1int,
{
    if i < s.len() && s[i] == '(' {
        let k = skip_ws_x(s, i + 1);
        match chain_x(s, k, 5) {
            Some((r, c)) => {
                let e = skip_ws_x(s, c);
                if e < s.len() && s[e] == ')' {
                    return Some((r, e + 1));
                }
            },
            None => {},
        }
    }
    atom_x(s, i)
}

/// `unary`, computed.
fn unary_x(s: &Vec<char>, i: usize) -> (r: Option<(Result<Expression, InvarError>, usize)>)
    requires
        i <= s.len(),
    ensures
        step_is(r, unary(s@, i as int), i as int),
        r matches Some((_, e)) ==> e <= s.len(),
    decreases s.len() - i, 2int,
{
    let bang = i < s.len() && s[i] == '!';
    let mut q = i;
    if bang {
        q = i + 1;
        loop
            invariant
                i < q <= s.len(),
                nots_run(s@, q as int) == nots_run(s@, i + 1),
            ensures
                i < q <= s.len(),
                nots_run(s@, q as int) == nots_run(s@, i + 1),
                nots_run(s@, q as int) == q,
            decreases s.len() - q,
        {
            let k = skip_ws_x(s, q);
            if k < s.len() && s[k] == '!' {
                q = k + 1;
            } else {
                break;
            }
        }
    }
    let p = skip_ws_x(s, q);
    match primary_x(s, p) {
        Some((r, e)) => Some(
            (
                if bang {
                    Err(sem_error(SemErr::NotOperator))
                } else {
                    r
                },
                e,
            ),
        ),
        None => None,
    }
}

/// `operand`, computed.
fn operand_x(s: &Vec<char>, i: usize, l: u8) -> (r: Option<(Result<Expression, InvarError>, usize)>)
    requires
        i <= s.len(),
        1 <= l <= 5,
    ensures
        step_is(r, operand(s@, i as int, l as int), i as int),
        r matches Some((_, e)) ==> e <= s.len(),
    decreases s.len() - i, 2 * l + 1,
{
    if l == 1 {
        unary_x(s, i)
    } else {
        chain_x(s, i, l - 1)
    }
}

/// `chain`, computed.
fn chain_x(s: &Vec<char>, i: usize, l: u8) -> (r: Option<(Result<Expression, InvarError>, usize)>)
    requires
        i <= s.len(),
        1 <= l <= 5,
    ensures
        step_is(r, chain(s@, i as int, l as int), i as int),
        r matches Some((_, e)) ==> e <= s.len(),
    decreases s.len() - i, 2 * l + 2,
{
    match operand_x(s, i, l) {
        None => None,
        Some((first, j0)) => {
            let ghost sfirst = (operand(s@, i as int, l as int)->0).0;
            let ghost target = chain_rest(s@, j0 as int, sfirst, l as int);
            let mut acc = first;
            let mut j = j0;
            let ghost mut sacc = sfirst;
            loop
                invariant
                    i <= j0 <= j <= s.len(),
                    1 <= l <= 5,
                    result_is(acc, sacc),
                    chain_rest(s@, j as int, sacc, l as int).0 == target.0,
                    j + chain_rest(s@, j as int, sacc, l as int).1 == j0 + target.1,
                ensures
                    i <= j0 <= j <= s.len(),
                    result_is(acc, sacc),
                    sacc == target.0,
                    j == j0 + target.1,
                decreases s.len() - j,
            {
                let k0 = skip_ws_x(s, j);
                match infix_x(s, k0, l) {
                    None => {
                        break;
                    },
                    Some((op, n)) => {
                        let k1 = skip_ws_x(s, k0 + n);
                        match operand_x(s, k1, l) {
                            None => {
                                break;
                            },
                            Some((rr, e)) => {
                                let ghost sr = (operand(s@, k1 as int, l as int)->0).0;
                                acc = join_x(acc, op, rr);
                                proof {
                                    assert(result_is(acc, join(sacc, op, sr)));
                                    sacc = join(sacc, op, sr);
                                }
                                j = e;
                            },
                        }
                    },
                }
            }
            Some((acc, j))
        },
    }
}

/// `call_args`, computed: the outcome and the position after the list.
fn call_args_x(s: &Vec<char>, p: usize) -> (r: (Result<Vec<Expression>, InvarError>, usize))
    requires
        p <= s.len(),
    ensures
        list_is(r.0, call_args(s@, p as int).0),
        r.1 == p + call_args(s@, p as int).1,
        r.1 <= s.len(),
    decreases s.len() - p, 14int,
{
    match chain_x(s, p, 5) {
        None => (Ok(Vec::new()), p),
        Some((first, j0)) => {
            let ghost sfirst = (chain(s@, p as int, 5)->0).0;
            let ghost sacc0 = push_arg(Ok(Seq::empty()), sfirst);
            let ghost target = args_rest(s@, j0 as int, sacc0);
            let none: Vec<Expression> = Vec::new();
            let start: Result<Vec<Expression>, InvarError> = Ok(none);
            assert(list_is(start, Ok(Seq::<Parsed>::empty())));
            let mut acc = push_x(start, first);
            assert(list_is(acc, sacc0));
            let mut q = j0;
            let ghost mut sacc = sacc0;
            loop
                invariant
                    p <= j0 <= q <= s.len(),
                    list_is(acc, sacc),
                    args_rest(s@, q as int, sacc).0 == target.0,
                    q + args_rest(s@, q as int, sacc).1 == j0 + target.1,
                ensures
                    p <= j0 <= q <= s.len(),
                    list_is(acc, sacc),
                    sacc == target.0,
                    q == j0 + target.1,
                decreases s.len() - q,
            {
                let k0 = skip_ws_x(s, q);
                if k0 < s.len() && s[k0] == ',' {
                    let k1 = skip_ws_x(s, k0 + 1);
                    match chain_x(s, k1, 5) {
                        None => {
                            break;
                        },
                        Some((rr, e)) => {
                            let ghost sr = (chain(s@, k1 as int, 5)->0).0;
                            acc = push_x(acc, rr);
                            proof {
                                assert(list_is(acc, push_arg(sacc, sr)));
                                sacc = push_arg(sacc, sr);
                            }
                            q = e;
                        },
                    }
                } else {
                    break;
                }
            }
            (acc, q)
        },
    }
}

/// `layer_group`, computed: the layer names and the position after the list.
fn layer_group_x(s: &Vec<char>, c: usize) -> (r: Option<(Vec<String>, usize)>)
    requires
        c <= s.len(),
    ensures
        match r {
            Some((names, e)) => layer_group(s@, c as int) == Some((string_views(names@), e as int))
                && e <= s.len(),
            None => layer_group(s@, c as int) is None,
        },
{
    if !(c < s.len() && s[c] == '(') {
        return None;
    }
    let p = skip_ws_x(s, c + 1);
    match layer_end_x(s, p) {
        None => None,
        Some(q0) => {
            let mut names: Vec<String> = Vec::new();
            names.push(span_text(s, p, q0));
            let ghost first = seq![s@.subrange(p as int, q0 as int)];
            assert(string_views(names@) =~= first);
            let ghost target = layer_rest(s@, q0 as int, first);
            let mut q = q0;
            loop
                invariant
                    q0 <= q <= s.len(),
                    layer_rest(s@, q as int, string_views(names@)) == target,
                ensures
                    q0 <= q <= s.len(),
                    target == (string_views(names@), q as int),
                decreases s.len() - q,
            {
                let k0 = skip_ws_x(s, q);
                if k0 < s.len() && s[k0] == ',' {
                    let k1 = skip_ws_x(s, k0 + 1);
                    match layer_end_x(s, k1) {
                        Some(e) => {
                            let ghost before = string_views(names@);
                            names.push(span_text(s, k1, e));
                            assert(string_views(names@) =~= before.push(
                                s@.subrange(k1 as int, e as int),
                            ));
                            q = e;
                        },
                        None => {
                            break;
                        },
                    }
                } else {
                    break;
                }
            }
            let e = skip_ws_x(s, q);
            if e < s.len() && s[e] == ')' {
                Some((names, e + 1))
            } else {
                None
            }
        },
    }
}

/// The message of a definition that does not fit the grammar.
pub open spec fn syntax_error_text() -> Seq<char> {
    "expected `invariant <name> [(<layer>, ...)] { <expression> }`"@
}

/// What parsing `input` yields, by `definition`: the invariant, the error of
/// an expression that fits the grammar without meaning, or the syntax error.
pub open spec fn parse_outcome_is(input: Seq<char>, r: Result<Invariant, InvarError>) -> bool {
    match definition(input) {
        None => r matches Err(x) && x matches InvarError::ConfigError(m) && m@
            == syntax_error_text(),
        Some((_, _, Err(k))) => r matches Err(x) && error_is(x, k),
        Some((name, layers, Ok(p))) => r matches Ok(inv) && inv.name@ == name && string_views(
            inv.layers@,
        ) == layers && expr_is(inv.expression, p) && inv.description is None && inv.severity@
            == "medium"@ && inv.category@ == "general"@ && inv.is_always_true
            && inv.phases@.len() == 0,
    }
}

/// The grammar of invariant definitions, as `definition` states it;
/// `InvariantParser` reads definitions by it.
pub struct TruentGrammar;

/// Reads invariant definitions.
pub struct InvariantParser;

impl InvariantParser {
    /// Parses one invariant definition from the start of `input`. The
    /// invariant has the definition's name, layers and expression, no
    /// description, severity `medium`, category `general`, and no phases.
    pub fn parse_invariant(input: &str) -> (r: Result<Invariant, InvarError>)
        ensures
            parse_outcome_is(input@, r),
    {
        let s = chars_of(input);
        let kw = vec!['i', 'n', 'v', 'a', 'r', 'i', 'a', 'n', 't'];
        assert(kw@ == kw_invariant());
        let syntax = InvarError::ConfigError(
            string_from("expected `invariant <name> [(<layer>, ...)] { <expression> }`"),
        );
        if !occurs_x(&s, &kw, 0) {
            return Err(syntax);
        }
        let a = skip_ws_x(&s, 9);
        let b = match ident_end_x(&s, a) {
            Some(b) => b,
            None => {
                return Err(syntax);
            },
        };
        let c = skip_ws_x(&s, b);
        let (layers, d) = match layer_group_x(&s, c) {
            Some((ls, e)) => (ls, e),
            None => {
                let none: Vec<String> = Vec::new();
                assert(string_views(none@) =~= Seq::<Seq<char>>::empty());
                (none, c)
            },
        };
        let f = skip_ws_x(&s, d);
        if !(f < s.len() && s[f] == '{') {
            return Err(syntax);
        }
        let g = skip_ws_x(&s, f + 1);
        match chain_x(&s, g, 5) {
            None => Err(syntax),
            Some((res, n)) => {
                let h = skip_ws_x(&s, n);
                if !(h < s.len() && s[h] == '}') {
                    return Err(syntax);
                }
                match res {
                    Err(x) => Err(x),
                    Ok(expression) => Ok(
                        Invariant {
                            name: span_text(&s, a, b),
                            description: None,
                            expression,
                            severity: string_from("medium"),
                            category: string_from("general"),
                            is_always_true: true,
                            layers,
                            phases: Vec::new(),
                        },
                    ),
                }
            },
        }
    }
}

/// Parses one invariant definition; see `InvariantParser::parse_invariant`.
pub fn parse_invariant(input: &str) -> (r: Result<Invariant, InvarError>)
    ensures
        parse_outcome_is(input@, r),
{
    InvariantParser::parse_invariant(input)
}

/// A token of the definition language, with its line and column.
pub struct Token {
    /// What the token is.
    pub token_type: TokenType,
    /// Line and column where it starts.
    pub position: (usize, usize),
}

/// The kinds of token of the definition language.
#[derive(Debug, Clone, PartialEq, Eq)]
pub enum TokenType {
    /// The `invariant` keyword.
    Invariant,
    /// An identifier.
    Identifier(String),
    /// An integer literal.
    Integer(i128),
    /// A boolean literal.
    Boolean(bool),
    /// An operator.
    Operator(String),
    /// `{`
    LeftBrace,
    /// `}`
    RightBrace,
    /// `(`
    LeftParen,
    /// `)`
    RightParen,
    /// `,`
    Comma,
    /// The end of the input.
    Eof,
}

proof fn lemma_expr_is_same(a: Expression, b: Expression, p: Parsed)
    requires
        expr_is(a, p),
        expr_is(b, p),
    ensures
        same_expr(a, b),
    decreases a, 1int,
{
    match a {
        Expression::BinaryOp { left, op: _, right } => {
            if let (Expression::BinaryOp { left: l2, op: _, right: r2 }, Parsed::Compare(pl, _, pr)) = (b, p) {
                lemma_expr_is_same(*left, *l2, *pl);
                lemma_expr_is_same(*right, *r2, *pr);
            }
        },
        Expression::Arithmetic { left, op: _, right } => {
            if let (Expression::Arithmetic { left: l2, op: _, right: r2 }, Parsed::Arith(pl, _, pr)) = (b, p) {
                lemma_expr_is_same(*left, *l2, *pl);
                lemma_expr_is_same(*right, *r2, *pr);
            }
        },
        Expression::Logical { left, op: _, right } => {
            if let (Expression::Logical { left: l2, op: _, right: r2 }, Parsed::Logic(pl, _, pr)) = (b, p) {
                lemma_expr_is_same(*left, *l2, *pl);
                lemma_expr_is_same(*right, *r2, *pr);
            }
        },
        Expression::FunctionCall { name: _, args } => {
            if let (Expression::FunctionCall { name: _, args: a2 }, Parsed::Call(_, ps)) = (b, p) {
                lemma_args_are_same(args@, a2@, ps);
                lemma_same_exprs_from(args@, a2@, 0);
            }
        },
        _ => {},
    }
}

proof fn lemma_args_are_same(xs: Seq<Expression>, ys: Seq<Expression>, ps: Seq<Parsed>)
    requires
        args_are(xs, ps),
        args_are(ys, ps),
    ensures
        xs.len() == ys.len(),
        forall|j: int| 0 <= j < xs.len() ==> #[trigger] same_expr(xs[j], ys[j]),
    decreases xs, 0int,
{
    if xs.len() > 0 {
        lemma_expr_is_same(xs.last(), ys.last(), ps.last());
        lemma_args_are_same(xs.drop_last(), ys.drop_last(), ps.drop_last());
        assert forall|j: int| 0 <= j < xs.len() implies #[trigger] same_expr(xs[j], ys[j]) by {
            if j < xs.len() - 1 {
                assert(xs.drop_last()[j] == xs[j] && ys.drop_last()[j] == ys[j]);
            }
        }
    }
}

/// Parsing is deterministic: the same input gives the same invariant (the
/// same name, layers and expression), or the same error.
pub proof fn lemma_parse_deterministic(
    input: Seq<char>,
    r1: Result<Invariant, InvarError>,
    r2: Result<Invariant, InvarError>,
)
    requires
        parse_outcome_is(input, r1),
        parse_outcome_is(input, r2),
    ensures
        r1 matches Ok(a) ==> (r2 matches Ok(b) && a.name@ == b.name@ && string_views(a.layers@)
            == string_views(b.layers@) && same_expr(a.expression, b.expression)),
        r1 matches Err(x) ==> (x matches InvarError::ConfigError(m1) && r2 matches Err(y)
            && y matches InvarError::ConfigError(m2) && m1@ == m2@),
{
    if let Some((_, _, Ok(p))) = definition(input) {
        if let (Ok(a), Ok(b)) = (r1, r2) {
            lemma_expr_is_same(a.expression, b.expression, p);
        }
    }
}

/// Every operator the parser reads spells the operator it builds: the text
/// it consumes is exactly the symbol that printing the operator gives back.
/// And each comparison symbol is read as its operator: `==` equality, `!=`
/// inequality, `<=`, `>=`, `<`, `>` the orders (a two-character symbol
/// before its one-character start).
pub proof fn lemma_operators_spell_their_symbols(s: Seq<char>, k: int, l: int)
    ensures
        match infix_at(s, k, l) {
            Some((Infix::Compare(op), n)) => 0 <= k && k + n <= s.len() && s.subrange(k, k + n)
                == binary_symbol(op),
            Some((Infix::Arith(op), n)) => 0 <= k && k + n <= s.len() && s.subrange(k, k + n)
                == arith_symbol(op),
            Some((Infix::Logic(op), n)) => 0 <= k && k + n <= s.len() && s.subrange(k, k + n)
                == logical_symbol(op),
            None => true,
        },
        l == 3 && 0 <= k && k + 2 <= s.len() && s.subrange(k, k + 2) == seq!['=', '='] ==> infix_at(
            s,
            k,
            l,
        ) == Some((Infix::Compare(BinaryOp::Eq), 2nat)),
        l == 3 && 0 <= k && k + 2 <= s.len() && s.subrange(k, k + 2) == seq!['!', '='] ==> infix_at(
            s,
            k,
            l,
        ) == Some((Infix::Compare(BinaryOp::Neq), 2nat)),
        l == 3 && 0 <= k && k + 2 <= s.len() && s.subrange(k, k + 2) == seq!['<', '='] ==> infix_at(
            s,
            k,
            l,
        ) == Some((Infix::Compare(BinaryOp::Lte), 2nat)),
        l == 3 && 0 <= k && k + 2 <= s.len() && s.subrange(k, k + 2) == seq!['>', '='] ==> infix_at(
            s,
            k,
            l,
        ) == Some((Infix::Compare(BinaryOp::Gte), 2nat)),
        l == 3 && 0 <= k < s.len() && s[k] == '<' && !(k + 1 < s.len() && s[k + 1] == '=')
            ==> infix_at(s, k, l) == Some((Infix::Compare(BinaryOp::Lt), 1nat)),
        l == 3 && 0 <= k < s.len() && s[k] == '>' && !(k + 1 < s.len() && s[k + 1] == '=')
            ==> infix_at(s, k, l) == Some((Infix::Compare(BinaryOp::Gt), 1nat)),
{
    match infix_at(s, k, l) {
        Some((_, n)) => {
            if n == 2 {
                assert(s.subrange(k, k + 2) =~= seq![s[k], s[k + 1]]);
            } else {
                assert(s.subrange(k, k + 1) =~= seq![s[k]]);
            }
        },
        None => {},
    }
    if 0 <= k && k + 2 <= s.len() {
        assert(s.subrange(k, k + 2)[0] == s[k] && s.subrange(k, k + 2)[1] == s[k + 1]);
    }
}

} // verus!
