//! Text helpers over the character view of strings.
//!
//! Every string operation the library needs is stated here over `Seq<char>`,
//! the view vstd gives `str` and `String`, and implemented over the
//! characters of the string so that Verus can follow it.
use vstd::prelude::*;
use vstd::std_specs::iter::IteratorSpec;
use vstd::string::StringExecFns;

verus! {

/// `t` occurs in `s` starting at index `i`.
pub open spec fn occurs_at(s: Seq<char>, t: Seq<char>, i: int) -> bool {
    0 <= i && i + t.len() <= s.len() && s.subrange(i, i + t.len()) == t
}

/// `t` occurs somewhere in `s`.
pub open spec fn has_substring(s: Seq<char>, t: Seq<char>) -> bool {
    exists|i: int| occurs_at(s, t, i)
}

/// `s` begins with `p`.
pub open spec fn has_prefix(s: Seq<char>, p: Seq<char>) -> bool {
    occurs_at(s, p, 0)
}

/// The first index at or after `from` where `t` occurs in `s`, if any.
pub open spec fn first_occurrence_from(s: Seq<char>, t: Seq<char>, from: int) -> Option<int>
    decreases s.len() - from,
{
    if from < 0 || from + t.len() > s.len() {
        None
    } else if occurs_at(s, t, from) {
        Some(from)
    } else if from >= s.len() {
        None
    } else {
        first_occurrence_from(s, t, from + 1)
    }
}

/// The characters of `s`, in order.
pub fn chars_of(s: &str) -> (r: Vec<char>)
    ensures
        r@ == s@,
{
    let mut out: Vec<char> = Vec::new();
    let mut it = s.chars();
    proof {
        broadcast use vstd::string::group_string_axioms;
    }
    loop
        invariant
            out@ + it.remaining() == s@,
            it.obeys_prophetic_iter_laws(),
            it.decrease() is Some,
        ensures
            out@ == s@,
        decreases it.decrease()->0,
    {
        match it.next() {
            Some(c) => {
                out.push(c);
            },
            None => {
                assert(out@ + it.remaining() == out@);
                break ;
            },
        }
    }
    out
}

/// Appends one character to `s`.
#[verifier::external_body]
pub(crate) fn push_char(s: &mut String, c: char)
    ensures
        final(s)@ == old(s)@.push(c),
{
    s.push(c);
}

/// Appends `t` to `s`.
pub fn push_str(s: &mut String, t: &str)
    ensures
        final(s)@ == old(s)@ + t@,
{
    s.append(t);
}

/// A string made of the given characters.
pub fn string_of_chars(v: &Vec<char>) -> (r: String)
    ensures
        r@ == v@,
{
    let mut s = String::new();
    let mut i: usize = 0;
    while i < v.len()
        invariant
            0 <= i <= v.len(),
            s@ == v@.subrange(0, i as int),
        decreases v.len() - i,
    {
        push_char(&mut s, v[i]);
        i = i + 1;
        assert(s@ == v@.subrange(0, i as int));
    }
    assert(v@.subrange(0, v@.len() as int) == v@);
    s
}

/// A fresh copy of `s`.
pub fn string_from(s: &str) -> (r: String)
    ensures
        r@ == s@,
{
    String::from_str(s)
}

/// The characters of `s` from `i` to `j`, as a string.
pub fn span_text(s: &Vec<char>, i: usize, j: usize) -> (r: String)
    requires
        i <= j <= s.len(),
    ensures
        r@ == s@.subrange(i as int, j as int),
{
    let mut v: Vec<char> = Vec::new();
    let mut k = i;
    while k < j
        invariant
            i <= k <= j <= s.len(),
            v@ == s@.subrange(i as int, k as int),
        decreases j - k,
    {
        v.push(s[k]);
        k = k + 1;
    }
    string_of_chars(&v)
}

/// Whether `t` occurs in `s` at index `i`.
pub fn matches_at(s: &Vec<char>, t: &Vec<char>, i: usize) -> (r: bool)
    ensures
        r == occurs_at(s@, t@, i as int),
{
    if i > s.len() || t.len() > s.len() - i {
        return false;
    }
    let mut k: usize = 0;
    while k < t.len()
        invariant
            0 <= k <= t.len(),
            i + t.len() <= s.len(),
            forall|j: int| 0 <= j < k ==> s@[i + j] == t@[j],
        decreases t.len() - k,
    {
        if s[i + k] != t[k] {
            assert(s@.subrange(i as int, i + t@.len())[k as int] != t@[k as int]);
            return false;
        }
        k = k + 1;
    }
    assert(s@.subrange(i as int, i + t@.len()) =~= t@);
    true
}

/// The first index at or after `from` where `t` occurs in `s`.
pub fn find_from(s: &Vec<char>, t: &Vec<char>, from: usize) -> (r: Option<usize>)
    ensures
        r matches Some(i) ==> first_occurrence_from(s@, t@, from as int) == Some(i as int),
        r is None ==> first_occurrence_from(s@, t@, from as int) is None,
{
    if from > s.len() || t.len() > s.len() - from {
        return None;
    }
    let last = s.len() - t.len();
    let mut i = from;
    loop
        invariant
            from <= i <= last,
            last + t.len() == s.len(),
            first_occurrence_from(s@, t@, from as int) == first_occurrence_from(s@, t@, i as int),
        decreases last - i,
    {
        if matches_at(s, t, i) {
            return Some(i);
        }
        if i == last {
            assert(first_occurrence_from(s@, t@, i + 1) is None);
            return None;
        }
        i = i + 1;
    }
}

/// The first occurrence is an occurrence, and nothing before it is one.
pub proof fn lemma_first_occurrence(s: Seq<char>, t: Seq<char>, from: int)
    requires
        0 <= from,
    ensures
        first_occurrence_from(s, t, from) matches Some(i) ==> {
            &&& from <= i
            &&& occurs_at(s, t, i)
            &&& forall|j: int| from <= j < i ==> !occurs_at(s, t, j)
        },
        first_occurrence_from(s, t, from) is None ==> forall|j: int|
            from <= j ==> !occurs_at(s, t, j),
    decreases s.len() - from,
{
    if from + t.len() > s.len() {
    } else if occurs_at(s, t, from) {
    } else if from >= s.len() {
        assert(t.len() > 0) by {
            if t.len() == 0 {
                assert(s.subrange(from, from) =~= t);
            }
        }
    } else {
        lemma_first_occurrence(s, t, from + 1);
    }
}

/// Whether `t` occurs anywhere in `s`.
pub fn contains_chars(s: &Vec<char>, t: &Vec<char>) -> (r: bool)
    ensures
        r == has_substring(s@, t@),
{
    let f = find_from(s, t, 0);
    proof {
        lemma_first_occurrence(s@, t@, 0);
    }
    f.is_some()
}

/// Whether `t` occurs anywhere in `s`.
pub fn str_contains(s: &str, t: &str) -> (r: bool)
    ensures
        r == has_substring(s@, t@),
{
    let sc = chars_of(s);
    let tc = chars_of(t);
    contains_chars(&sc, &tc)
}

/// Whether `s` begins with `p`.
pub fn str_starts_with(s: &str, p: &str) -> (r: bool)
    ensures
        r == has_prefix(s@, p@),
{
    let sc = chars_of(s);
    let pc = chars_of(p);
    matches_at(&sc, &pc, 0)
}

/// Whether `a` and `b` hold the same characters.
pub fn str_eq(a: &str, b: &str) -> (r: bool)
    ensures
        r == (a@ == b@),
{
    let ac = chars_of(a);
    let bc = chars_of(b);
    if ac.len() != bc.len() {
        return false;
    }
    let r = matches_at(&ac, &bc, 0);
    assert(ac@.subrange(0, bc@.len() as int) =~= ac@);
    r
}

/// The decimal digits of a natural number, most significant first.
pub open spec fn dec_digits(n: nat) -> Seq<char>
    decreases n,
{
    if n < 10 {
        seq![digit_char(n)]
    } else {
        dec_digits(n / 10).push(digit_char(n % 10))
    }
}

/// The character for one decimal digit.
pub open spec fn digit_char(d: nat) -> char {
    if d == 0 {
        '0'
    } else if d == 1 {
        '1'
    } else if d == 2 {
        '2'
    } else if d == 3 {
        '3'
    } else if d == 4 {
        '4'
    } else if d == 5 {
        '5'
    } else if d == 6 {
        '6'
    } else if d == 7 {
        '7'
    } else if d == 8 {
        '8'
    } else {
        '9'
    }
}

pub(crate) fn digit_of(d: u128) -> (c: char)
    requires
        d < 10,
    ensures
        c == digit_char(d as nat),
{
    if d == 0 {
        '0'
    } else if d == 1 {
        '1'
    } else if d == 2 {
        '2'
    } else if d == 3 {
        '3'
    } else if d == 4 {
        '4'
    } else if d == 5 {
        '5'
    } else if d == 6 {
        '6'
    } else if d == 7 {
        '7'
    } else if d == 8 {
        '8'
    } else {
        '9'
    }
}

/// Appends the decimal digits of `n` to `s`.
pub fn push_u128(s: &mut String, n: u128)
    ensures
        final(s)@ == old(s)@ + dec_digits(n as nat),
    decreases n,
{
    if n < 10 {
        push_char(s, digit_of(n));
    } else {
        push_u128(s, n / 10);
        push_char(s, digit_of(n % 10));
    }
}

/// The decimal representation of `n`.
pub fn u128_to_string(n: u128) -> (r: String)
    ensures
        r@ == dec_digits(n as nat),
{
    let mut s = String::new();
    push_u128(&mut s, n);
    s
}

/// The decimal representation of `n`.
pub fn usize_to_string(n: usize) -> (r: String)
    ensures
        r@ == dec_digits(n as nat),
{
    u128_to_string(n as u128)
}

/// The decimal representation of a signed integer: a minus sign before the
/// digits of its magnitude when it is negative.
pub open spec fn int_text(n: int) -> Seq<char> {
    if n < 0 {
        seq!['-'] + dec_digits((-n) as nat)
    } else {
        dec_digits(n as nat)
    }
}

/// Appends the decimal representation of `n` to `s`.
pub fn push_i128(s: &mut String, n: i128)
    ensures
        final(s)@ == old(s)@ + int_text(n as int),
{
    if n < 0 {
        push_char(s, '-');
        let m: u128 = if n == i128::MIN {
            170141183460469231731687303715884105728u128
        } else {
            (-n) as u128
        };
        assert(m == -(n as int));
        push_u128(s, m);
        assert(final(s)@ =~= old(s)@ + int_text(n as int));
    } else {
        push_u128(s, n as u128);
    }
}

/// What `str::to_lowercase` returns for these characters.
pub uninterp spec fn unicode_lowercase(s: Seq<char>) -> Seq<char>;

/// What `str::to_uppercase` returns for these characters.
pub uninterp spec fn unicode_uppercase(s: Seq<char>) -> Seq<char>;

/// `str::to_uppercase`: the uppercase mapping of `s` that Unicode defines,
/// named by `unicode_uppercase`.
#[verifier::external_body]
pub(crate) fn to_uppercase(s: &str) -> (r: String)
    ensures
        r@ == unicode_uppercase(s@),
{
    s.to_uppercase()
}

/// `str::to_lowercase`: the lowercase mapping of `s` that Unicode defines,
/// named by `unicode_lowercase`.
#[verifier::external_body]
pub(crate) fn to_lowercase(s: &str) -> (r: String)
    ensures
        r@ == unicode_lowercase(s@),
{
    s.to_lowercase()
}

/// `s` with `rep` before each character and at the end: what an empty
/// pattern's replacement gives.
pub open spec fn interleaved(s: Seq<char>, rep: Seq<char>) -> Seq<char>
    decreases s.len(),
{
    if s.len() == 0 {
        rep
    } else {
        rep + seq![s[0]] + interleaved(s.skip(1), rep)
    }
}

/// `s` with every occurrence of `pat`, taken left to right and without
/// overlap, replaced by `rep`; an empty `pat` occurs before each character
/// and at the end.
pub open spec fn replaced(s: Seq<char>, pat: Seq<char>, rep: Seq<char>) -> Seq<char>
    decreases s.len(),
{
    if pat.len() == 0 {
        interleaved(s, rep)
    } else if s.len() == 0 {
        s
    } else if has_prefix(s, pat) {
        rep + replaced(s.skip(pat.len() as int), pat, rep)
    } else {
        seq![s[0]] + replaced(s.skip(1), pat, rep)
    }
}

/// `str::replace`.
pub fn replace_all(s: &str, pat: &str, rep: &str) -> (r: String)
    ensures
        r@ == replaced(s@, pat@, rep@),
{
    let sc = chars_of(s);
    let pc = chars_of(pat);
    let mut out = String::new();
    if pc.len() == 0 {
        let mut i: usize = 0;
        assert(sc@.skip(0) =~= sc@);
        while i < sc.len()
            invariant
                0 <= i <= sc.len(),
                out@ + interleaved(sc@.skip(i as int), rep@) == interleaved(sc@, rep@),
            decreases sc.len() - i,
        {
            let ghost before = out@;
            assert(sc@.skip(i as int).skip(1) =~= sc@.skip(i + 1));
            push_str(&mut out, rep);
            push_char(&mut out, sc[i]);
            assert(out@ + interleaved(sc@.skip(i + 1), rep@) =~= before + interleaved(
                sc@.skip(i as int),
                rep@,
            ));
            i = i + 1;
        }
        assert(sc@.skip(sc@.len() as int) =~= Seq::<char>::empty());
        push_str(&mut out, rep);
        return out;
    }
    let mut i: usize = 0;
    assert(sc@.skip(0) =~= sc@);
    while i < sc.len()
        invariant
            0 <= i <= sc.len(),
            pc@.len() > 0,
            pc@ == pat@,
            out@ + replaced(sc@.skip(i as int), pc@, rep@) == replaced(sc@, pc@, rep@),
        decreases sc.len() - i,
    {
        let ghost rest = sc@.skip(i as int);
        if matches_at(&sc, &pc, i) {
            assert(has_prefix(rest, pc@)) by {
                assert(rest.subrange(0, pc@.len() as int) =~= sc@.subrange(
                    i as int,
                    i + pc@.len(),
                ));
            }
            assert(rest.skip(pc@.len() as int) =~= sc@.skip(i + pc@.len()));
            push_str(&mut out, rep);
            i = i + pc.len();
        } else {
            assert(!has_prefix(rest, pc@)) by {
                if has_prefix(rest, pc@) {
                    assert(rest.subrange(0, pc@.len() as int) =~= sc@.subrange(
                        i as int,
                        i + pc@.len(),
                    ));
                }
            }
            assert(rest.skip(1) =~= sc@.skip(i + 1));
            push_char(&mut out, sc[i]);
            assert(out@ + replaced(sc@.skip(i + 1), pc@, rep@) =~= old_out_plus(
                out@,
                replaced(sc@.skip(i + 1), pc@, rep@),
            ));
            i = i + 1;
        }
    }
    assert(sc@.skip(sc@.len() as int) =~= Seq::<char>::empty());
    out
}

spec fn old_out_plus(a: Seq<char>, b: Seq<char>) -> Seq<char> {
    a + b
}

/// The items, in order, with `sep` between each two.
pub open spec fn joined(items: Seq<Seq<char>>, sep: Seq<char>) -> Seq<char>
    decreases items.len(),
{
    if items.len() == 0 {
        Seq::empty()
    } else if items.len() == 1 {
        items[0]
    } else {
        joined(items.drop_last(), sep) + sep + items.last()
    }
}

/// `slice::join`: the strings, in order, with `sep` between each two.
pub fn join_strings(items: &[String], sep: &str) -> (r: String)
    ensures
        r@ == joined(items@.map_values(|s: String| s@), sep@),
{
    let ghost views = items@.map_values(|s: String| s@);
    let mut out = String::new();
    let mut i: usize = 0;
    assert(views.subrange(0, 0) =~= Seq::<Seq<char>>::empty());
    while i < items.len()
        invariant
            i <= items.len(),
            views == items@.map_values(|s: String| s@),
            out@ == joined(views.subrange(0, i as int), sep@),
        decreases items.len() - i,
    {
        if i > 0 {
            push_str(&mut out, sep);
        }
        push_str(&mut out, items[i].as_str());
        proof {
            let sub = views.subrange(0, i as int + 1);
            assert(sub.drop_last() =~= views.subrange(0, i as int));
            assert(sub.last() == items@[i as int]@);
            if i == 0 {
                assert(sub.len() == 1);
                assert(out@ =~= items@[0]@);
            } else {
                assert(out@ =~= joined(views.subrange(0, i as int), sep@) + sep@ + sub.last());
            }
        }
        i = i + 1;
    }
    assert(views.subrange(0, items.len() as int) =~= views);
    out
}

/// What `{:?}` prints for a string with these characters: the string
/// quoted, with its special characters escaped.
pub uninterp spec fn debug_quoted(s: Seq<char>) -> Seq<char>;

/// `format!("{:?}", s)`: the string quoted and escaped as `Debug` shows it.
#[verifier::external_body]
pub(crate) fn debug_string(s: &str) -> (r: String)
    ensures
        r@ == debug_quoted(s@),
{
    format!("{:?}", s)
}

} // verus!
