//! Whitespace, trimming and splitting, as `str`'s `trim`, `trim_matches`,
//! `split` and `split_whitespace` do them.
use vstd::prelude::*;
use crate::strmap::string_views;
use crate::text::{chars_of, string_of_chars};

verus! {

/// `char::is_whitespace`: the characters with Unicode's `White_Space`
/// property.
pub open spec fn is_white_space(c: char) -> bool {
    c == ' ' || ('\t' <= c && c <= '\r') || c == '\u{85}' || c == '\u{a0}' || c == '\u{1680}' || (
    '\u{2000}' <= c && c <= '\u{200a}') || c == '\u{2028}' || c == '\u{2029}' || c == '\u{202f}'
        || c == '\u{205f}' || c == '\u{3000}'
}

/// `char::is_whitespace`, computed.
pub fn is_white_space_x(c: char) -> (r: bool)
    ensures
        r == is_white_space(c),
{
    c == ' ' || ('\t' <= c && c <= '\r') || c == '\u{85}' || c == '\u{a0}' || c == '\u{1680}' || (
    '\u{2000}' <= c && c <= '\u{200a}') || c == '\u{2028}' || c == '\u{2029}' || c == '\u{202f}'
        || c == '\u{205f}' || c == '\u{3000}'
}

/// What a trim removes: whitespace when `quote` is `None`, else the one
/// character it holds.
pub open spec fn trims(quote: Option<char>, c: char) -> bool {
    match quote {
        None => is_white_space(c),
        Some(q) => c == q,
    }
}

fn trims_x(quote: Option<char>, c: char) -> (r: bool)
    ensures
        r == trims(quote, c),
{
    match quote {
        None => is_white_space_x(c),
        Some(q) => c == q,
    }
}

/// `s` without the leading characters that `quote` trims.
pub open spec fn strip_start(s: Seq<char>, quote: Option<char>) -> Seq<char>
    decreases s.len(),
{
    if s.len() > 0 && trims(quote, s[0]) {
        strip_start(s.drop_first(), quote)
    } else {
        s
    }
}

/// `s` without the trailing characters that `quote` trims.
pub open spec fn strip_end(s: Seq<char>, quote: Option<char>) -> Seq<char>
    decreases s.len(),
{
    if s.len() > 0 && trims(quote, s.last()) {
        strip_end(s.drop_last(), quote)
    } else {
        s
    }
}

/// `s` trimmed at both ends: `trim` for `None`, `trim_matches(q)` for
/// `Some(q)`.
pub open spec fn trimmed(s: Seq<char>, quote: Option<char>) -> Seq<char> {
    strip_end(strip_start(s, quote), quote)
}

/// The bounds of `v[from..to]` trimmed as `quote` says.
pub fn trim_span(v: &Vec<char>, from: usize, to: usize, quote: Option<char>) -> (r: (usize, usize))
    requires
        from <= to <= v.len(),
    ensures
        from <= r.0 <= r.1 <= to,
        v@.subrange(r.0 as int, r.1 as int) == trimmed(v@.subrange(from as int, to as int), quote),
{
    let mut a = from;
    while a < to && trims_x(quote, v[a])
        invariant
            from <= a <= to <= v.len(),
            strip_start(v@.subrange(a as int, to as int), quote) == strip_start(
                v@.subrange(from as int, to as int),
                quote,
            ),
        decreases to - a,
    {
        assert(v@.subrange(a as int, to as int).drop_first() =~= v@.subrange(a + 1, to as int));
        a = a + 1;
    }
    let mut b = to;
    while b > a && trims_x(quote, v[b - 1])
        invariant
            from <= a <= b <= to <= v.len(),
            strip_start(v@.subrange(a as int, to as int), quote) == v@.subrange(a as int, to as int),
            strip_end(v@.subrange(a as int, b as int), quote) == strip_end(
                v@.subrange(a as int, to as int),
                quote,
            ),
        decreases b - a,
    {
        assert(v@.subrange(a as int, b as int).drop_last() =~= v@.subrange(a as int, b - 1));
        b = b - 1;
    }
    (a, b)
}

/// `str::split(sep)`: the pieces between the separators, empty ones kept.
pub open spec fn split_on(s: Seq<char>, sep: char) -> Seq<Seq<char>>
    decreases s.len(),
{
    if s.len() == 0 {
        seq![Seq::empty()]
    } else {
        let p = split_on(s.drop_last(), sep);
        if s.last() == sep {
            p.push(Seq::empty())
        } else {
            p.update(p.len() - 1, p.last().push(s.last()))
        }
    }
}

pub proof fn lemma_split_on_nonempty(s: Seq<char>, sep: char)
    ensures
        split_on(s, sep).len() >= 1,
    decreases s.len(),
{
    if s.len() > 0 {
        lemma_split_on_nonempty(s.drop_last(), sep);
    }
}

/// The bounds of the pieces `split_on` cuts `v` into.
pub fn split_spans(v: &Vec<char>, sep: char) -> (r: Vec<(usize, usize)>)
    ensures
        r@.len() == split_on(v@, sep).len(),
        forall|k: int| #![trigger r@[k]]
            0 <= k < r@.len() ==> r@[k].0 <= r@[k].1 <= v.len() && v@.subrange(
                r@[k].0 as int,
                r@[k].1 as int,
            ) == split_on(v@, sep)[k],
{
    let mut spans: Vec<(usize, usize)> = Vec::new();
    let mut start: usize = 0;
    let mut i: usize = 0;
    while i < v.len()
        invariant
            start <= i <= v.len(),
            spans@.len() + 1 == split_on(v@.subrange(0, i as int), sep).len(),
            forall|k: int| #![trigger spans@[k]]
                0 <= k < spans@.len() ==> spans@[k].0 <= spans@[k].1 <= v.len()
                    && v@.subrange(spans@[k].0 as int, spans@[k].1 as int) == split_on(
                    v@.subrange(0, i as int),
                    sep,
                )[k],
            v@.subrange(start as int, i as int) == split_on(v@.subrange(0, i as int), sep).last(),
        decreases v.len() - i,
    {
        let ghost prefix = v@.subrange(0, i as int);
        let ghost next = v@.subrange(0, i + 1);
        proof {
            assert(next.drop_last() =~= prefix);
            lemma_split_on_nonempty(prefix, sep);
        }
        let ghost p = split_on(prefix, sep);
        if v[i] == sep {
            spans.push((start, i));
            start = i + 1;
            assert(v@.subrange(start as int, i + 1) =~= Seq::<char>::empty());
            assert(split_on(next, sep) == p.push(Seq::empty()));
        } else {
            assert(v@.subrange(start as int, i + 1) =~= v@.subrange(start as int, i as int).push(
                v@[i as int],
            ));
            assert(split_on(next, sep) == p.update(p.len() - 1, p.last().push(v@[i as int])));
        }
        assert(forall|k: int| #![trigger spans@[k]]
            0 <= k < spans@.len() ==> spans@[k].0 <= spans@[k].1 <= v.len()
                && v@.subrange(spans@[k].0 as int, spans@[k].1 as int) == split_on(next, sep)[k]);
        i = i + 1;
        assert(next == v@.subrange(0, i as int));
    }
    spans.push((start, v.len()));
    proof {
        assert(v@.subrange(0, v@.len() as int) =~= v@);
        lemma_split_on_nonempty(v@, sep);
    }
    spans
}

/// `str::split_whitespace`: the maximal runs of non-whitespace characters.
pub open spec fn words_of(s: Seq<char>) -> Seq<Seq<char>>
    decreases s.len(),
{
    if s.len() == 0 {
        Seq::empty()
    } else {
        let p = words_of(s.drop_last());
        let c = s.last();
        if is_white_space(c) {
            p
        } else if s.len() >= 2 && !is_white_space(s[s.len() - 2]) {
            p.update(p.len() - 1, p.last().push(c))
        } else {
            p.push(seq![c])
        }
    }
}

pub proof fn lemma_words_of_last(s: Seq<char>)
    ensures
        s.len() > 0 && !is_white_space(s.last()) ==> words_of(s).len() >= 1,
    decreases s.len(),
{
    if s.len() >= 2 {
        lemma_words_of_last(s.drop_last());
    }
}

/// The contents of character vectors.
pub open spec fn char_vec_views(v: Seq<Vec<char>>) -> Seq<Seq<char>> {
    v.map_values(|w: Vec<char>| w@)
}

/// `str::split_whitespace`, collected.
pub fn split_whitespace(s: &str) -> (r: Vec<String>)
    ensures
        string_views(r@) == words_of(s@),
{
    let v = chars_of(s);
    let mut out: Vec<Vec<char>> = Vec::new();
    let mut i: usize = 0;
    while i < v.len()
        invariant
            i <= v.len(),
            v@ == s@,
            char_vec_views(out@) == words_of(v@.subrange(0, i as int)),
        decreases v.len() - i,
    {
        let ghost prefix = v@.subrange(0, i as int);
        let ghost before = char_vec_views(out@);
        proof {
            assert(v@.subrange(0, i + 1).drop_last() =~= prefix);
        }
        let c = v[i];
        if is_white_space_x(c) {
        } else if i >= 1 && !is_white_space_x(v[i - 1]) {
            proof {
                lemma_words_of_last(prefix);
            }
            let last = out.len() - 1;
            let mut w = out[last].clone();
            w.push(c);
            out.set(last, w);
            assert(char_vec_views(out@) =~= before.update(
                before.len() - 1,
                before.last().push(c),
            ));
        } else {
            let mut w: Vec<char> = Vec::new();
            w.push(c);
            out.push(w);
            assert(char_vec_views(out@) =~= before.push(seq![c]));
        }
        i = i + 1;
    }
    let mut r: Vec<String> = Vec::new();
    let mut k: usize = 0;
    assert(v@.subrange(0, v@.len() as int) =~= v@);
    while k < out.len()
        invariant
            k <= out.len(),
            char_vec_views(out@) == words_of(s@),
            r@.len() == k,
            forall|j: int| 0 <= j < k ==> #[trigger] r@[j]@ == out@[j]@,
        decreases out.len() - k,
    {
        r.push(string_of_chars(&out[k]));
        k = k + 1;
    }
    assert(string_views(r@) =~= char_vec_views(out@));
    r
}

} // verus!
