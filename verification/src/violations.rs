//! How a finding is judged against the program model: which markers the
//! analyzers left support a violation of an invariant, where in the source
//! the violation is, and how it is explained.
use vstd::prelude::*;
use crate::model::{Invariant, ProgramModel};
use crate::dsl_parser::{digits_value, is_digit};
use crate::text::{
    push_str, string_from, chars_of, has_substring, str_contains, to_lowercase, to_uppercase, unicode_lowercase,
    unicode_uppercase,
};

verus! {

/// Some function of the program carries a marker containing `pat`.
pub open spec fn has_marker(program: ProgramModel, pat: Seq<char>) -> bool {
    exists|i: int, j: int|
        0 <= i < program.functions.pairs().len() && 0 <= j
            < program.functions.pairs()[i].1.mutates.elems().len() && has_substring(
            #[trigger] program.functions.pairs()[i].1.mutates.elems()[j],
            pat,
        )
}

/// Some function of the program has a name containing `add`, `mul` or
/// `increment`.
pub open spec fn has_arithmetic_function(program: ProgramModel) -> bool {
    exists|i: int|
        0 <= i < program.functions.pairs().len() && {
            let name = (#[trigger] program.functions.pairs()[i]).1.name@;
            has_substring(name, "add"@) || has_substring(name, "mul"@) || has_substring(
                name,
                "increment"@,
            )
        }
}

/// Some function of the program is an entry point.
pub open spec fn has_entry_point(program: ProgramModel) -> bool {
    exists|i: int|
        0 <= i < program.functions.pairs().len() && (#[trigger] program.functions.pairs()[i]).1.is_entry_point
}

/// What the confidence in a violation rests on.
#[derive(Debug, Clone, Copy, PartialEq, Eq, Structural)]
pub enum ConfidenceBasis {
    /// A chain-specific marker supports the violation: the confidence, in
    /// hundredths.
    Marker(u32),
    /// No marker does: what the heuristic score is computed from.
    Heuristic {
        /// The invariant concerns reentrancy and the program has more than
        /// two functions.
        reentrancy: bool,
        /// The invariant concerns overflow or underflow and some function
        /// looks arithmetic.
        arithmetic: bool,
        /// The invariant concerns access and the program has an entry point
        /// among more than one function.
        access: bool,
        /// The number of functions.
        functions: usize,
        /// The number of state variables.
        state_vars: usize,
    },
}

/// The basis of the confidence that `inv` is violated in `program`:
/// the first chain-specific rule whose invariant keyword and marker match,
/// else the heuristic inputs. Chain and invariant name are compared in lower
/// case.
pub open spec fn confidence_basis_of(program: ProgramModel, inv: Invariant) -> ConfidenceBasis {
    let c = unicode_lowercase(program.chain@);
    let n = unicode_lowercase(inv.name@);
    if has_substring(c, "solana"@) && (has_substring(n, "lamport"@) || has_substring(n, "sol_lamport"@)) && has_marker(program, "SOLANA_LAMPORT_UNSAFE"@) {
        ConfidenceBasis::Marker(95)
    } else if has_substring(c, "solana"@) && (has_substring(n, "overflow"@) || has_substring(n, "sol_integer_overflow"@)) && has_marker(program, "SOLANA_UNCHECKED_ARITHMETIC"@) {
        ConfidenceBasis::Marker(90)
    } else if has_substring(c, "solana"@) && (has_substring(n, "signer"@) || has_substring(n, "sol_signer_checks"@)) && has_marker(program, "SOLANA_MISSING_SIGNER"@) {
        ConfidenceBasis::Marker(88)
    } else if has_substring(c, "solana"@) && (has_substring(n, "account"@) || has_substring(n, "sol_account_validation"@)) && has_marker(program, "SOLANA__MISSING_VALIDATION"@) {
        ConfidenceBasis::Marker(85)
    } else if has_substring(c, "solana"@) && (has_substring(n, "rent"@) || has_substring(n, "sol_rent_exemption"@)) && has_marker(program, "SOLANA_RENT_EXEMPTION"@) {
        ConfidenceBasis::Marker(82)
    } else if has_substring(c, "solana"@) && (has_substring(n, "pda"@) || has_substring(n, "sol_pda_derivation"@)) && has_marker(program, "SOLANA_PDA_DERIVATION"@) {
        ConfidenceBasis::Marker(80)
    } else if has_substring(c, "evm"@) && has_substring(n, "reentrancy"@) && has_marker(program, "EVM_REENTRANCY"@) {
        ConfidenceBasis::Marker(93)
    } else if has_substring(c, "evm"@) && (has_substring(n, "call"@) || has_substring(n, "external"@)) && has_marker(program, "EVM_UNCHECKED_CALL"@) {
        ConfidenceBasis::Marker(91)
    } else if has_substring(c, "evm"@) && (has_substring(n, "overflow"@) || has_substring(n, "arithmetic"@)) && has_marker(program, "EVM_UNCHECKED_ARITHMETIC"@) {
        ConfidenceBasis::Marker(89)
    } else if has_substring(c, "evm"@) && has_substring(n, "delegatecall"@) && has_marker(program, "EVM_DELEGATECALL_ABUSE"@) {
        ConfidenceBasis::Marker(92)
    } else if has_substring(c, "evm"@) && has_substring(n, "timestamp"@) && has_marker(program, "EVM_TIMESTAMP_DEPENDENCY"@) {
        ConfidenceBasis::Marker(85)
    } else if has_substring(c, "evm"@) && (has_substring(n, "front"@) || has_substring(n, "ordering"@)) && has_marker(program, "EVM_FRONT_RUNNING"@) {
        ConfidenceBasis::Marker(80)
    } else if has_substring(c, "evm"@) && has_substring(n, "access"@) && has_marker(program, "EVM_ACCESS_CONTROL"@) {
        ConfidenceBasis::Marker(87)
    } else if has_substring(c, "evm"@) && has_substring(n, "validation"@) && has_marker(program, "EVM_INPUT_VALIDATION"@) {
        ConfidenceBasis::Marker(83)
    } else if has_substring(c, "move"@) && has_substring(n, "resource"@) && has_marker(program, "MOVE_RESOURCE_LEAK"@) {
        ConfidenceBasis::Marker(89)
    } else if has_substring(c, "move"@) && has_substring(n, "ability"@) && has_marker(program, "MOVE_MISSING_ABILITY"@) {
        ConfidenceBasis::Marker(86)
    } else if has_substring(c, "move"@) && (has_substring(n, "overflow"@) || has_substring(n, "arithmetic"@)) && has_marker(program, "MOVE_UNCHECKED_ARITHMETIC"@) {
        ConfidenceBasis::Marker(88)
    } else if has_substring(c, "move"@) && has_substring(n, "signer"@) && has_marker(program, "MOVE_MISSING_SIGNER"@) {
        ConfidenceBasis::Marker(84)
    } else if has_substring(c, "move"@) && (has_substring(n, "mutation"@) || (has_substring(n, "unguarded"@) && has_marker(program, "MOVE_UNGUARDED_MUTATION"@))) {
        ConfidenceBasis::Marker(82)
    } else if has_substring(c, "move"@) && has_substring(n, "privilege"@) && has_marker(program, "MOVE_PRIVILEGE_ESCALATION"@) {
        ConfidenceBasis::Marker(81)
    } else if has_substring(c, "move"@) && has_substring(n, "abort"@) && has_marker(program, "MOVE_UNSAFE_ABORT"@) {
        ConfidenceBasis::Marker(79)
    } else {
        let fcount = program.functions.pairs().len();
        ConfidenceBasis::Heuristic {
            reentrancy: has_substring(n, "reentrancy"@) && fcount > 2,
            arithmetic: (has_substring(n, "overflow"@) || has_substring(n, "underflow"@))
                && has_arithmetic_function(program),
            access: has_substring(n, "access"@) && has_entry_point(program) && fcount > 1,
            functions: fcount as usize,
            state_vars: program.state_vars.pairs().len() as usize,
        }
    }
}

/// Whether some function carries a marker containing `pat`.
fn has_marker_x(program: &ProgramModel, pat: &str) -> (r: bool)
    ensures
        r == has_marker(*program, pat@),
{
    let n = program.functions.len();
    let mut i: usize = 0;
    while i < n
        invariant
            i <= n,
            n == program.functions.pairs().len(),
            forall|a: int, b: int|
                0 <= a < i && 0 <= b < program.functions.pairs()[a].1.mutates.elems().len()
                    ==> !has_substring(
                    #[trigger] program.functions.pairs()[a].1.mutates.elems()[b],
                    pat@,
                ),
        decreases n - i,
    {
        let f = program.functions.value_at(i);
        let m = f.mutates.len();
        let mut j: usize = 0;
        while j < m
            invariant
                j <= m,
                i < n,
                n == program.functions.pairs().len(),
                *f == program.functions.pairs()[i as int].1,
                m == f.mutates.elems().len(),
                forall|b: int| 0 <= b < j ==> !has_substring(#[trigger] f.mutates.elems()[b], pat@),
            decreases m - j,
        {
            if str_contains(f.mutates.item_at(j).as_str(), pat) {
                return true;
            }
            j = j + 1;
        }
        i = i + 1;
    }
    false
}

/// Whether some function looks arithmetic by its name.
fn has_arithmetic_function_x(program: &ProgramModel) -> (r: bool)
    ensures
        r == has_arithmetic_function(*program),
{
    let n = program.functions.len();
    let mut i: usize = 0;
    while i < n
        invariant
            i <= n,
            n == program.functions.pairs().len(),
            forall|a: int|
                0 <= a < i ==> !{
                    let name = (#[trigger] program.functions.pairs()[a]).1.name@;
                    has_substring(name, "add"@) || has_substring(name, "mul"@) || has_substring(
                        name,
                        "increment"@,
                    )
                },
        decreases n - i,
    {
        let name = program.functions.value_at(i).name.as_str();
        if str_contains(name, "add") || str_contains(name, "mul") || str_contains(name, "increment") {
            return true;
        }
        i = i + 1;
    }
    false
}

/// Whether some function is an entry point.
fn has_entry_point_x(program: &ProgramModel) -> (r: bool)
    ensures
        r == has_entry_point(*program),
{
    let n = program.functions.len();
    let mut i: usize = 0;
    while i < n
        invariant
            i <= n,
            n == program.functions.pairs().len(),
            forall|a: int| 0 <= a < i ==> !(#[trigger] program.functions.pairs()[a]).1.is_entry_point,
        decreases n - i,
    {
        if program.functions.value_at(i).is_entry_point {
            return true;
        }
        i = i + 1;
    }
    false
}

/// What the confidence that `inv` is violated in `program` rests on:
/// a matching chain-specific marker, else the inputs of the heuristic.
pub fn confidence_basis(program: &ProgramModel, inv: &Invariant) -> (r: ConfidenceBasis)
    ensures
        r == confidence_basis_of(*program, *inv),
{
    let c = to_lowercase(program.chain.as_str());
    let n = to_lowercase(inv.name.as_str());
    let is_solana = str_contains(c.as_str(), "solana");
    let is_evm = str_contains(c.as_str(), "evm");
    let is_move = str_contains(c.as_str(), "move");
    if is_solana && (str_contains(n.as_str(), "lamport") || str_contains(n.as_str(), "sol_lamport")) && has_marker_x(program, "SOLANA_LAMPORT_UNSAFE") {
        return ConfidenceBasis::Marker(95);
    }
    if is_solana && (str_contains(n.as_str(), "overflow") || str_contains(n.as_str(), "sol_integer_overflow")) && has_marker_x(program, "SOLANA_UNCHECKED_ARITHMETIC") {
        return ConfidenceBasis::Marker(90);
    }
    if is_solana && (str_contains(n.as_str(), "signer") || str_contains(n.as_str(), "sol_signer_checks")) && has_marker_x(program, "SOLANA_MISSING_SIGNER") {
        return ConfidenceBasis::Marker(88);
    }
    if is_solana && (str_contains(n.as_str(), "account") || str_contains(n.as_str(), "sol_account_validation")) && has_marker_x(program, "SOLANA__MISSING_VALIDATION") {
        return ConfidenceBasis::Marker(85);
    }
    if is_solana && (str_contains(n.as_str(), "rent") || str_contains(n.as_str(), "sol_rent_exemption")) && has_marker_x(program, "SOLANA_RENT_EXEMPTION") {
        return ConfidenceBasis::Marker(82);
    }
    if is_solana && (str_contains(n.as_str(), "pda") || str_contains(n.as_str(), "sol_pda_derivation")) && has_marker_x(program, "SOLANA_PDA_DERIVATION") {
        return ConfidenceBasis::Marker(80);
    }
    if is_evm && str_contains(n.as_str(), "reentrancy") && has_marker_x(program, "EVM_REENTRANCY") {
        return ConfidenceBasis::Marker(93);
    }
    if is_evm && (str_contains(n.as_str(), "call") || str_contains(n.as_str(), "external")) && has_marker_x(program, "EVM_UNCHECKED_CALL") {
        return ConfidenceBasis::Marker(91);
    }
    if is_evm && (str_contains(n.as_str(), "overflow") || str_contains(n.as_str(), "arithmetic")) && has_marker_x(program, "EVM_UNCHECKED_ARITHMETIC") {
        return ConfidenceBasis::Marker(89);
    }
    if is_evm && str_contains(n.as_str(), "delegatecall") && has_marker_x(program, "EVM_DELEGATECALL_ABUSE") {
        return ConfidenceBasis::Marker(92);
    }
    if is_evm && str_contains(n.as_str(), "timestamp") && has_marker_x(program, "EVM_TIMESTAMP_DEPENDENCY") {
        return ConfidenceBasis::Marker(85);
    }
    if is_evm && (str_contains(n.as_str(), "front") || str_contains(n.as_str(), "ordering")) && has_marker_x(program, "EVM_FRONT_RUNNING") {
        return ConfidenceBasis::Marker(80);
    }
    if is_evm && str_contains(n.as_str(), "access") && has_marker_x(program, "EVM_ACCESS_CONTROL") {
        return ConfidenceBasis::Marker(87);
    }
    if is_evm && str_contains(n.as_str(), "validation") && has_marker_x(program, "EVM_INPUT_VALIDATION") {
        return ConfidenceBasis::Marker(83);
    }
    if is_move && str_contains(n.as_str(), "resource") && has_marker_x(program, "MOVE_RESOURCE_LEAK") {
        return ConfidenceBasis::Marker(89);
    }
    if is_move && str_contains(n.as_str(), "ability") && has_marker_x(program, "MOVE_MISSING_ABILITY") {
        return ConfidenceBasis::Marker(86);
    }
    if is_move && (str_contains(n.as_str(), "overflow") || str_contains(n.as_str(), "arithmetic")) && has_marker_x(program, "MOVE_UNCHECKED_ARITHMETIC") {
        return ConfidenceBasis::Marker(88);
    }
    if is_move && str_contains(n.as_str(), "signer") && has_marker_x(program, "MOVE_MISSING_SIGNER") {
        return ConfidenceBasis::Marker(84);
    }
    if is_move && (str_contains(n.as_str(), "mutation") || (str_contains(n.as_str(), "unguarded") && has_marker_x(program, "MOVE_UNGUARDED_MUTATION"))) {
        return ConfidenceBasis::Marker(82);
    }
    if is_move && str_contains(n.as_str(), "privilege") && has_marker_x(program, "MOVE_PRIVILEGE_ESCALATION") {
        return ConfidenceBasis::Marker(81);
    }
    if is_move && str_contains(n.as_str(), "abort") && has_marker_x(program, "MOVE_UNSAFE_ABORT") {
        return ConfidenceBasis::Marker(79);
    }
    let fcount = program.functions.len();
    let reentrancy = str_contains(n.as_str(), "reentrancy") && fcount > 2;
    let arithmetic = (str_contains(n.as_str(), "overflow") || str_contains(n.as_str(), "underflow"))
        && has_arithmetic_function_x(program);
    let access = str_contains(n.as_str(), "access") && has_entry_point_x(program) && fcount > 1;
    ConfidenceBasis::Heuristic {
        reentrancy,
        arithmetic,
        access,
        functions: fcount,
        state_vars: program.state_vars.len(),
    }
}


/// The position of the last `c` in `m`.
pub open spec fn last_index_of(m: Seq<char>, c: char) -> Option<int>
    decreases m.len(),
{
    if m.len() == 0 {
        None
    } else if m.last() == c {
        Some(m.len() - 1)
    } else {
        last_index_of(m.drop_last(), c)
    }
}

/// What remains of a number's text after an optional leading `+`.
pub open spec fn unsigned_digits(t: Seq<char>) -> Seq<char> {
    if t.len() > 0 && t[0] == '+' {
        t.drop_first()
    } else {
        t
    }
}

/// `usize::from_str`: an optional `+`, then at least one decimal digit, the
/// value fitting in a `usize`.
pub open spec fn parse_usize(t: Seq<char>) -> Option<nat> {
    let d = unsigned_digits(t);
    if d.len() > 0 && (forall|i: int| 0 <= i < d.len() ==> is_digit(#[trigger] d[i]))
        && digits_value(d) <= usize::MAX {
        Some(digits_value(d))
    } else {
        None
    }
}

/// The line number a marker ends with, after its last `:`.
pub open spec fn marker_line(m: Seq<char>) -> Option<nat> {
    match last_index_of(m, ':') {
        Some(k) => parse_usize(m.subrange(k + 1, m.len() as int)),
        None => None,
    }
}

/// A marker (upper-cased, `u`) is evidence for the invariant (lower-cased
/// name `n`).
pub open spec fn marker_relevant(n: Seq<char>, u: Seq<char>) -> bool {
    ||| has_substring(n, "signer"@) && has_substring(u, "SIGNER"@)
    ||| has_substring(n, "lamport"@) && has_substring(u, "LAMPORT"@)
    ||| (has_substring(n, "overflow"@) || has_substring(n, "arithmetic"@)) && has_substring(
        u,
        "ARITHMETIC"@,
    )
    ||| has_substring(n, "account"@) && (has_substring(u, "ACCOUNT"@) || has_substring(
        u,
        "VALIDATION"@,
    ))
    ||| has_substring(n, "rent"@) && has_substring(u, "RENT"@)
    ||| has_substring(n, "pda"@) && has_substring(u, "PDA"@)
    ||| (has_substring(n, "deserialization"@) || has_substring(n, "instruction"@)) && (
    has_substring(u, "DESERIAL"@) || has_substring(u, "INSTRUCTION"@))
    ||| has_substring(n, "token"@) && has_substring(u, "TOKEN"@)
    ||| has_substring(n, "reentrancy"@) && has_substring(u, "REENTRANCY"@)
}

/// The `j`-th marker of the `i`-th function, in key order.
pub open spec fn marker_at(program: ProgramModel, i: int, j: int) -> Seq<char> {
    program.functions.pairs()[i].1.mutates.elems()[j]
}

/// Marker `j` of function `i` exists, names a line and is evidence for the
/// invariant named `n` (lower case).
pub open spec fn marker_points(program: ProgramModel, n: Seq<char>, i: int, j: int) -> bool {
    &&& 0 <= i < program.functions.pairs().len()
    &&& 0 <= j < program.functions.pairs()[i].1.mutates.elems().len()
    &&& marker_line(marker_at(program, i, j)) is Some
    &&& marker_relevant(n, unicode_uppercase(marker_at(program, i, j)))
}

/// `i2, j2` comes before `i, j`: functions in key order, each function's
/// markers in order.
pub open spec fn before(i2: int, j2: int, i: int, j: int) -> bool {
    i2 < i || (i2 == i && j2 < j)
}

/// The last `:` in `v`, searched backwards.
fn last_colon_x(v: &Vec<char>) -> (r: Option<usize>)
    ensures
        match r {
            Some(k) => last_index_of(v@, ':') == Some(k as int) && k < v.len(),
            None => last_index_of(v@, ':') is None,
        },
{
    let mut k = v.len();
    assert(v@.subrange(0, v@.len() as int) =~= v@);
    while k > 0
        invariant
            k <= v.len(),
            last_index_of(v@.subrange(0, k as int), ':') == last_index_of(v@, ':'),
        decreases k,
    {
        let ghost sub = v@.subrange(0, k as int);
        assert(sub.drop_last() =~= v@.subrange(0, k - 1));
        if v[k - 1] == ':' {
            return Some(k - 1);
        }
        k = k - 1;
    }
    assert(v@.subrange(0, 0) =~= Seq::<char>::empty());
    None
}

/// `parse_usize` of `v[from..]`, computed.
fn parse_usize_x(v: &Vec<char>, from: usize) -> (r: Option<usize>)
    requires
        from <= v.len(),
    ensures
        match r {
            Some(x) => parse_usize(v@.subrange(from as int, v@.len() as int)) == Some(x as nat),
            None => parse_usize(v@.subrange(from as int, v@.len() as int)) is None,
        },
{
    let ghost t = v@.subrange(from as int, v@.len() as int);
    let start = if from < v.len() && v[from] == '+' {
        from + 1
    } else {
        from
    };
    let ghost d = v@.subrange(start as int, v@.len() as int);
    proof {
        if from < v.len() && v@[from as int] == '+' {
            assert(t.drop_first() =~= d);
        } else {
            assert(t =~= d);
        }
    }
    if start >= v.len() {
        return None;
    }
    let mut acc: u128 = 0;
    let mut over = false;
    let mut k = start;
    assert(v@.subrange(start as int, start as int) =~= Seq::<char>::empty());
    while k < v.len()
        invariant
            start <= k <= v.len(),
            d == v@.subrange(start as int, v@.len() as int),
            t == v@.subrange(from as int, v@.len() as int),
            unsigned_digits(t) == d,
            forall|m: int| start <= m < k ==> is_digit(#[trigger] v@[m]),
            !over ==> acc == digits_value(v@.subrange(start as int, k as int)) && acc
                <= usize::MAX,
            over ==> digits_value(v@.subrange(start as int, k as int)) > usize::MAX,
        decreases v.len() - k,
    {
        let c = v[k];
        if !is_digit_char(c) {
            assert(d[k - start] == c);
            assert(!(forall|i: int| 0 <= i < d.len() ==> is_digit(#[trigger] d[i])));
            assert(parse_usize(t) is None);
            return None;
        }
        let ghost sub = v@.subrange(start as int, k + 1);
        assert(sub.drop_last() =~= v@.subrange(start as int, k as int));
        assert(sub.last() == c);
        let dig = (c as u32 - '0' as u32) as u128;
        if !over {
            let next = acc * 10 + dig;
            if next > usize::MAX as u128 {
                over = true;
            } else {
                acc = next;
            }
        }
        k = k + 1;
    }
    assert(v@.subrange(start as int, v@.len() as int) =~= d);
    assert forall|i: int| 0 <= i < d.len() implies is_digit(#[trigger] d[i]) by {
        assert(d[i] == v@[start + i]);
    }
    if over {
        None
    } else {
        Some(acc as usize)
    }
}

fn is_digit_char(c: char) -> (r: bool)
    ensures
        r == is_digit(c),
{
    '0' <= c && c <= '9'
}

/// Whether the upper-cased marker `u` is evidence for the invariant named
/// `n` in lower case.
fn marker_relevant_x(n: &str, u: &str) -> (r: bool)
    ensures
        r == marker_relevant(n@, u@),
{
    (str_contains(n, "signer") && str_contains(u, "SIGNER")) || (str_contains(n, "lamport")
        && str_contains(u, "LAMPORT")) || ((str_contains(n, "overflow") || str_contains(
        n,
        "arithmetic",
    )) && str_contains(u, "ARITHMETIC")) || (str_contains(n, "account") && (str_contains(
        u,
        "ACCOUNT",
    ) || str_contains(u, "VALIDATION"))) || (str_contains(n, "rent") && str_contains(u, "RENT"))
        || (str_contains(n, "pda") && str_contains(u, "PDA")) || ((str_contains(
        n,
        "deserialization",
    ) || str_contains(n, "instruction")) && (str_contains(u, "DESERIAL") || str_contains(
        u,
        "INSTRUCTION",
    ))) || (str_contains(n, "token") && str_contains(u, "TOKEN")) || (str_contains(
        n,
        "reentrancy",
    ) && str_contains(u, "REENTRANCY"))
}

/// The line of the first marker, functions in key order and each
/// function's markers in order, that ends in `:<line>` and is evidence for
/// the invariant: signer, lamport, arithmetic, account, rent, PDA,
/// deserialization, token and reentrancy invariants each have their marker
/// words.
pub fn find_vulnerability_line(program: &ProgramModel, invariant_name: &str) -> (r: Option<usize>)
    ensures
        match r {
            Some(l) => exists|i: int, j: int|
                #![trigger marker_at(*program, i, j)]
                {
                    &&& marker_points(*program, unicode_lowercase(invariant_name@), i, j)
                    &&& marker_line(marker_at(*program, i, j)) == Some(l as nat)
                    &&& forall|i2: int, j2: int|
                        before(i2, j2, i, j) ==> !marker_points(
                            *program,
                            unicode_lowercase(invariant_name@),
                            i2,
                            j2,
                        )
                },
            None => forall|i: int, j: int|
                !marker_points(*program, unicode_lowercase(invariant_name@), i, j),
        },
{
    let lower = to_lowercase(invariant_name);
    let ghost n = unicode_lowercase(invariant_name@);
    let count = program.functions.len();
    let mut i: usize = 0;
    while i < count
        invariant
            i <= count,
            count == program.functions.pairs().len(),
            lower@ == n,
            n == unicode_lowercase(invariant_name@),
            forall|i2: int, j2: int| i2 < i ==> !marker_points(*program, n, i2, j2),
        decreases count - i,
    {
        let f = program.functions.value_at(i);
        let m = f.mutates.len();
        let mut j: usize = 0;
        while j < m
            invariant
                j <= m,
                i < count,
                count == program.functions.pairs().len(),
                lower@ == n,
                n == unicode_lowercase(invariant_name@),
                *f == program.functions.pairs()[i as int].1,
                m == f.mutates.elems().len(),
                forall|i2: int, j2: int| before(i2, j2, i as int, j as int) ==> !marker_points(*program, n, i2, j2),
            decreases m - j,
        {
            let marker = f.mutates.item_at(j);
            let v = chars_of(marker.as_str());
            match last_colon_x(&v) {
                Some(k) => {
                    match parse_usize_x(&v, k + 1) {
                        Some(line) => {
                            let upper = to_uppercase(marker.as_str());
                            if marker_relevant_x(lower.as_str(), upper.as_str()) {
                                assert(v@ == marker_at(*program, i as int, j as int));
                                assert(marker_line(marker_at(*program, i as int, j as int)) == Some(
                                    line as nat,
                                ));
                                assert(marker_points(*program, n, i as int, j as int));
                                return Some(line);
                            }
                        },
                        None => {},
                    }
                },
                None => {},
            }
            assert(!marker_points(*program, n, i as int, j as int));
            j = j + 1;
        }
        assert forall|i2: int, j2: int| i2 < i + 1 implies !marker_points(*program, n, i2, j2) by {
            if i2 == i as int && 0 <= j2 < m {
                assert(before(i2, j2, i as int, m as int));
            }
        }
        i = i + 1;
    }
    None
}


/// The lamport message, before the confidence.
pub const LAMPORT_MESSAGE_HEAD: &'static str = "Detected unsafe lamport manipulation with ";

/// The lamport message, after the confidence.
pub const LAMPORT_MESSAGE_TAIL: &'static str = "% confidence. Direct arithmetic on account lamports without validation or safety checks detected.";

/// The lamport recommendation.
pub const LAMPORT_RECOMMENDATION: &'static str = "CRITICAL: Never directly manipulate lamports without proper validation.\nFix: Use checked arithmetic and validate account signer status before modifying lamports:\n✓ Require account to be a signer: #[account(mut, signer)]\n✓ Use checked_add/checked_sub instead of saturating_add/sub\n✓ Validate minimum balance after transfer\n✓ Consider using Solana's system program for transfers\nReference: https://docs.solana.com/developing/programming-model/transactions";

/// The overflow message, before the confidence.
pub const OVERFLOW_MESSAGE_HEAD: &'static str = "Detected unchecked arithmetic operation with ";

/// The overflow message, after the confidence.
pub const OVERFLOW_MESSAGE_TAIL: &'static str = "% confidence. Potential integer overflow/underflow risk found.";

/// The overflow recommendation.
pub const OVERFLOW_RECOMMENDATION: &'static str = "Use overflow-checked arithmetic for all calculations:\nAvailable options:\n1. Use checked_add/checked_sub/checked_mul/checked_div that return Option<T>\n2. Use wrapping_add/wrapping_sub for intentional wrapping behavior (rare, always document)\n3. For Solana tokens, use SPL Token's u128 multiplication internally\n4. Add overflow checks with: require!(value <= MAX_ALLOWED, ErrorCode::Overflow)\nExample fix:\nlet result = amount.checked_add(fee).ok_or(ErrorCode::Overflow)?;\nReference: https://github.com/solana-labs/spl-token/blob/master/program/src/instruction.rs";

/// The signer message, before the confidence.
pub const SIGNER_MESSAGE_HEAD: &'static str = "Detected missing signer verification with ";

/// The signer message, after the confidence.
pub const SIGNER_MESSAGE_TAIL: &'static str = "% confidence. Function may accept unauthorized callers.";

/// The signer recommendation.
pub const SIGNER_RECOMMENDATION: &'static str = "Ensure all sensitive operations require proper signer verification:\nRequired fixes:\n1. Mark sensitive account parameters as signers: #[account(mut, signer)]\n2. Add explicit checks: require!(account.is_signer, ErrorCode::MissingSigner)\n3. For specific authorities, validate: require!(authority.key == EXPECTED_AUTH, ...)\n4. Use require_keys_eq! macro for owner validation\nSecurity: This prevents unauthorized account ownership transfers and fund theft.\nReference: https://docs.rs/anchor-lang/latest/anchor_lang/require_keys_eq/index.html";

/// The account message, before the confidence.
pub const ACCOUNT_MESSAGE_HEAD: &'static str = "Detected missing account validation with ";

/// The account message, after the confidence.
pub const ACCOUNT_MESSAGE_TAIL: &'static str = "% confidence. Accounts may not be properly owned or validated.";

/// The account recommendation.
pub const ACCOUNT_RECOMMENDATION: &'static str = "Implement comprehensive account validation:\nRequired checks for each account:\n1. Owner verification: require!(account.owner == &system_program::ID, ...)\n2. Account type validation: Verify account data layout matches expected structure\n3. Signer checks: require!(account.is_signer, ...) for authority accounts\n4. Mint validation: For token accounts, verify mint matches expected\nAnchor example:\n#[account(mut, owner = system_program::ID)]\npub account: UncheckedAccount<'info>,\nBetter approach: Use Account<'info, YourDataType> for automatic validation\nReference: https://docs.anchor-lang.com/frequently-asked-questions/security#how-do-i-validate-accounts";

/// The rent message, before the confidence.
pub const RENT_MESSAGE_HEAD: &'static str = "Detected potential rent exemption issue with ";

/// The rent message, after the confidence.
pub const RENT_MESSAGE_TAIL: &'static str = "% confidence. Account may not maintain required minimum balance.";

/// The rent recommendation.
pub const RENT_RECOMMENDATION: &'static str = "Ensure accounts maintain rent exemption:\nSolana requires accounts to maintain a minimum lamport balance.\nBest practices:\n1. Allocate sufficient space for account data\n2. Set initial balance >= rent_exempt_minimum\n3. When withdrawing lamports: verify_account_rent_exemption!(account, rent)\n4. Use system_program::create_account for proper initialization\n5. For PDAs, ensure bump seed doesn't affect rent calculation\nImplementation:\nlet rent = Rent::get()?;\nlet required_lamports = rent.minimum_balance(data_len);\nReference: https://docs.solana.com/developing/programming-model/accounts";

/// The pda message, before the confidence.
pub const PDA_MESSAGE_HEAD: &'static str = "Detected PDA derivation issue with ";

/// The pda message, after the confidence.
pub const PDA_MESSAGE_TAIL: &'static str = "% confidence. Bump seed or seed derivation may be incorrect.";

/// The pda recommendation.
pub const PDA_RECOMMENDATION: &'static str = "Fix PDA derivation security issues:\nCommon problems and fixes:\n1. Hardcoded bump seed: WRONG - use find_program_address instead\n2. Missing bump storage: Always store bump in account data for verification\n3. Seed ordering: Order seeds consistently \n4. Seed validation: Verify derived PDA in instrumentation\nCorrect pattern:\nlet (pda, bump) = Pubkey::find_program_address(&[seed], program_id);\nrequire_keys_eq!(expected_account, pda, ErrorCode::InvalidPDA);\nStore bump and re-derive for verification, never trust the bump argument\nReference: https://docs.solana.com/developing/programming-model/calling-between-programs#program-derived-addresses";

/// The deserialization message, before the confidence.
pub const DESERIALIZATION_MESSAGE_HEAD: &'static str = "Detected unsafe deserialization with ";

/// The deserialization message, after the confidence.
pub const DESERIALIZATION_MESSAGE_TAIL: &'static str = "% confidence. Account data not properly validated before parsing.";

/// The deserialization recommendation.
pub const DESERIALIZATION_RECOMMENDATION: &'static str = "Implement safe deserialization practices:\nNever assume account data layout matches expectations.\nBest practices:\n1. Use try_from_slice with error handling (not unwrap)\n2. Validate account size before deserializing: require!(account.data_len() >= EXPECTED_SIZE, ...)\n3. Use Anchor's Account<T> type which handles validation\n4. For raw deserialization: let data = account.data.borrow();\nlet parsed = MyData::try_from_slice(&data)?;\n5. Add version checks for account data migrations\nNever use: \nlet data = from_slice::<MyData>(&account.data).unwrap(); ❌\nReference: https://docs.anchor-lang.com/frequently-asked-questions/security#how-do-i-validate-data";

/// The token message, before the confidence.
pub const TOKEN_MESSAGE_HEAD: &'static str = "Detected unchecked token operation with ";

/// The token message, after the confidence.
pub const TOKEN_MESSAGE_TAIL: &'static str = "% confidence. Token transfers may overflow or lose precision.";

/// The token recommendation.
pub const TOKEN_RECOMMENDATION: &'static str = "Use SPL Token's checked arithmetic for all transfers:\nSecurity issues with unchecked token math:\n1. Overflow in token amounts (rare but possible with custom decimals)\n2. Fee rounding attacks\n3. Solana Token program has internal overflow checks, but verify your math\nBest practice:\n// For SPL Token transfers, the program validates\nspl_token::instruction::transfer(...)?\nFor custom math:\nlet amount = tokens.checked_mul(price).ok_or(ErrorCode::Overflow)?;\nTesting:\n- Test with amounts near u64::MAX\n- Test with high-decimal tokens\nReference: https://github.com/solana-labs/solana-program-library/tree/master/token";

/// The reentrancy message, before the confidence.
pub const REENTRANCY_MESSAGE_HEAD: &'static str = "Detected potential reentrancy risk with ";

/// The reentrancy message, after the confidence.
pub const REENTRANCY_MESSAGE_TAIL: &'static str = "% confidence. Complex state interactions without guards.";

/// The reentrancy recommendation.
pub const REENTRANCY_RECOMMENDATION: &'static str = "Implement reentrancy protections:\n1. Use checks-effects-interactions pattern\n2. Apply state changes before external calls\n3. Use reentrancy guards (mutex-style locking)\n4. For EVM: use OpenZeppelin's ReentrancyGuard\n5. For Solana: No reentrancy risk by design (sequential execution)\nReference: https://ethereumbook.org/code/vulnerabilities/";

/// Which explanation a violation gets: on Solana, by the first of the
/// lamport, overflow, signer, account, rent, PDA, deserialization and token
/// keywords in the invariant's name (0 to 7); else 8 for reentrancy; else 9
/// for the generic one. `c` and `n` are the lower-cased chain and name.
pub open spec fn violation_category(c: Seq<char>, n: Seq<char>) -> int {
    if has_substring(c, "solana"@) && (has_substring(n, "lamport"@)) {
        0
    } else if has_substring(c, "solana"@) && (has_substring(n, "overflow"@) || has_substring(n, "integer_overflow"@)) {
        1
    } else if has_substring(c, "solana"@) && (has_substring(n, "signer"@)) {
        2
    } else if has_substring(c, "solana"@) && (has_substring(n, "account_validation"@) || has_substring(n, "account"@)) {
        3
    } else if has_substring(c, "solana"@) && (has_substring(n, "rent"@)) {
        4
    } else if has_substring(c, "solana"@) && (has_substring(n, "pda"@)) {
        5
    } else if has_substring(c, "solana"@) && (has_substring(n, "deserial"@) || has_substring(n, "instruction"@)) {
        6
    } else if has_substring(c, "solana"@) && (has_substring(n, "token"@)) {
        7
    } else if has_substring(n, "reentrancy"@) {
        8
    } else {
        9
    }
}

/// The message head, message tail and recommendation of category `k < 9`.
pub open spec fn category_texts(k: int) -> (Seq<char>, Seq<char>, Seq<char>) {
    if k == 0 {
        (LAMPORT_MESSAGE_HEAD@, LAMPORT_MESSAGE_TAIL@, LAMPORT_RECOMMENDATION@)
    } else if k == 1 {
        (OVERFLOW_MESSAGE_HEAD@, OVERFLOW_MESSAGE_TAIL@, OVERFLOW_RECOMMENDATION@)
    } else if k == 2 {
        (SIGNER_MESSAGE_HEAD@, SIGNER_MESSAGE_TAIL@, SIGNER_RECOMMENDATION@)
    } else if k == 3 {
        (ACCOUNT_MESSAGE_HEAD@, ACCOUNT_MESSAGE_TAIL@, ACCOUNT_RECOMMENDATION@)
    } else if k == 4 {
        (RENT_MESSAGE_HEAD@, RENT_MESSAGE_TAIL@, RENT_RECOMMENDATION@)
    } else if k == 5 {
        (PDA_MESSAGE_HEAD@, PDA_MESSAGE_TAIL@, PDA_RECOMMENDATION@)
    } else if k == 6 {
        (DESERIALIZATION_MESSAGE_HEAD@, DESERIALIZATION_MESSAGE_TAIL@, DESERIALIZATION_RECOMMENDATION@)
    } else if k == 7 {
        (TOKEN_MESSAGE_HEAD@, TOKEN_MESSAGE_TAIL@, TOKEN_RECOMMENDATION@)
    } else if k == 8 {
        (REENTRANCY_MESSAGE_HEAD@, REENTRANCY_MESSAGE_TAIL@, REENTRANCY_RECOMMENDATION@)
    } else {
        (Seq::empty(), Seq::empty(), Seq::empty())
    }
}

/// The message and recommendation for a violation of the invariant `name`
/// on `chain`, with the confidence shown as `percent`.
pub open spec fn violation_info(chain: Seq<char>, name: Seq<char>, percent: Seq<char>) -> (
    Seq<char>,
    Seq<char>,
) {
    let k = violation_category(unicode_lowercase(chain), unicode_lowercase(name));
    if k < 9 {
        let t = category_texts(k);
        (t.0 + percent + t.1, t.2)
    } else {
        (
            "Detected violation of '"@ + name + "' invariant with "@ + percent + "% confidence."@,
            "Review the '"@ + name + "' invariant documentation at https://docs.truent.dev/invariants/"@
                + name + " and apply recommended fixes."@,
        )
    }
}

fn violation_category_x(c: &String, n: &String) -> (r: u8)
    ensures
        r as int == violation_category(c@, n@),
{
    let is_solana = str_contains(c.as_str(), "solana");
    if is_solana && (str_contains(n.as_str(), "lamport")) {
        return 0;
    }
    if is_solana && (str_contains(n.as_str(), "overflow") || str_contains(n.as_str(), "integer_overflow")) {
        return 1;
    }
    if is_solana && (str_contains(n.as_str(), "signer")) {
        return 2;
    }
    if is_solana && (str_contains(n.as_str(), "account_validation") || str_contains(n.as_str(), "account")) {
        return 3;
    }
    if is_solana && (str_contains(n.as_str(), "rent")) {
        return 4;
    }
    if is_solana && (str_contains(n.as_str(), "pda")) {
        return 5;
    }
    if is_solana && (str_contains(n.as_str(), "deserial") || str_contains(n.as_str(), "instruction")) {
        return 6;
    }
    if is_solana && (str_contains(n.as_str(), "token")) {
        return 7;
    }
    if str_contains(n.as_str(), "reentrancy") {
        return 8;
    }
    9
}

fn category_texts_x(k: u8) -> (r: (&'static str, &'static str, &'static str))
    ensures
        k < 9 ==> (r.0@, r.1@, r.2@) == category_texts(k as int),
{
    if k == 0 {
        (LAMPORT_MESSAGE_HEAD, LAMPORT_MESSAGE_TAIL, LAMPORT_RECOMMENDATION)
    } else if k == 1 {
        (OVERFLOW_MESSAGE_HEAD, OVERFLOW_MESSAGE_TAIL, OVERFLOW_RECOMMENDATION)
    } else if k == 2 {
        (SIGNER_MESSAGE_HEAD, SIGNER_MESSAGE_TAIL, SIGNER_RECOMMENDATION)
    } else if k == 3 {
        (ACCOUNT_MESSAGE_HEAD, ACCOUNT_MESSAGE_TAIL, ACCOUNT_RECOMMENDATION)
    } else if k == 4 {
        (RENT_MESSAGE_HEAD, RENT_MESSAGE_TAIL, RENT_RECOMMENDATION)
    } else if k == 5 {
        (PDA_MESSAGE_HEAD, PDA_MESSAGE_TAIL, PDA_RECOMMENDATION)
    } else if k == 6 {
        (DESERIALIZATION_MESSAGE_HEAD, DESERIALIZATION_MESSAGE_TAIL, DESERIALIZATION_RECOMMENDATION)
    } else if k == 7 {
        (TOKEN_MESSAGE_HEAD, TOKEN_MESSAGE_TAIL, TOKEN_RECOMMENDATION)
    } else if k == 8 {
        (REENTRANCY_MESSAGE_HEAD, REENTRANCY_MESSAGE_TAIL, REENTRANCY_RECOMMENDATION)
    } else {
        ("", "", "")
    }
}

/// The message and recommendation explaining a violation of `inv` in
/// `program`, with the confidence already written as a percentage
/// (`percent`, without the `%`).
pub fn generate_detailed_violation_info(program: &ProgramModel, inv: &Invariant, percent: &str) -> (r: (
    String,
    String,
))
    ensures
        (r.0@, r.1@) == violation_info(program.chain@, inv.name@, percent@),
{
    let c = to_lowercase(program.chain.as_str());
    let n = to_lowercase(inv.name.as_str());
    let k = violation_category_x(&c, &n);
    if k < 9 {
        let (head, tail, rec) = category_texts_x(k);
        let mut message = string_from(head);
        push_str(&mut message, percent);
        push_str(&mut message, tail);
        (message, string_from(rec))
    } else {
        let name = inv.name.as_str();
        let mut message = string_from("Detected violation of '");
        push_str(&mut message, name);
        push_str(&mut message, "' invariant with ");
        push_str(&mut message, percent);
        push_str(&mut message, "% confidence.");
        let mut rec = string_from("Review the '");
        push_str(&mut rec, name);
        push_str(&mut rec, "' invariant documentation at https://docs.truent.dev/invariants/");
        push_str(&mut rec, name);
        push_str(&mut rec, " and apply recommended fixes.");
        (message, rec)
    }
}

} // verus!
