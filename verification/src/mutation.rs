//! Structural mutation of a source text for robustness fuzzing: lines are
//! deleted, duplicated, truncated or swapped, each change at the positions
//! that a seeded random generator picked.
use vstd::prelude::*;
use crate::strmap::string_views;
use crate::test_infrastructure::{lines_from, text_lines};
use crate::text::{chars_of, join_strings, joined, string_from, string_of_chars};

verus! {

/// One change to the lines of a source, with the picks that place it.
#[derive(Debug, Clone, Copy, PartialEq, Eq, Structural)]
pub enum Mutation {
    /// Delete the line at this index.
    Delete(usize),
    /// Duplicate the line at this index.
    Duplicate(usize),
    /// Truncate the line at the first index at the byte offset of the
    /// second (picked only for a non-empty line), moved back to the start
    /// of the character it falls in.
    Truncate(usize, usize),
    /// Swap the lines at the two indexes.
    Swap(usize, usize),
}

/// The number of bytes of a character in UTF-8.
pub open spec fn char_bytes(c: char) -> nat {
    if (c as u32) < 0x80 {
        1
    } else if (c as u32) < 0x800 {
        2
    } else if (c as u32) < 0x10000 {
        3
    } else {
        4
    }
}

/// The number of bytes of a text in UTF-8.
pub open spec fn byte_len(s: Seq<char>) -> nat
    decreases s.len(),
{
    if s.len() == 0 {
        0
    } else {
        char_bytes(s[0]) + byte_len(s.skip(1))
    }
}

/// The longest start of `s` whose UTF-8 bytes fit in `cut` bytes.
pub open spec fn prefix_within(s: Seq<char>, cut: nat) -> Seq<char>
    decreases s.len(),
{
    if s.len() == 0 || char_bytes(s[0]) > cut {
        Seq::empty()
    } else {
        seq![s[0]] + prefix_within(s.skip(1), (cut - char_bytes(s[0])) as nat)
    }
}

/// The picks of `m` fit `lines`: each index names a line, and a cut of a
/// non-empty line falls inside it.
pub open spec fn fits(m: Mutation, lines: Seq<Seq<char>>) -> bool {
    match m {
        Mutation::Delete(i) => i < lines.len(),
        Mutation::Duplicate(i) => i < lines.len(),
        Mutation::Truncate(i, cut) => i < lines.len() && (lines[i as int].len() > 0 ==> cut
            < byte_len(lines[i as int])),
        Mutation::Swap(a, b) => a < lines.len() && b < lines.len(),
    }
}

/// The lines after the change `m`.
pub open spec fn applied(m: Mutation, lines: Seq<Seq<char>>) -> Seq<Seq<char>> {
    match m {
        Mutation::Delete(i) => lines.remove(i as int),
        Mutation::Duplicate(i) => lines.insert(i as int, lines[i as int]),
        Mutation::Truncate(i, cut) => if lines[i as int].len() == 0 {
            lines
        } else {
            lines.update(i as int, prefix_within(lines[i as int], cut as nat))
        },
        Mutation::Swap(a, b) => lines.update(a as int, lines[b as int]).update(
            b as int,
            lines[a as int],
        ),
    }
}

/// The lines after the changes `ms` in turn, stopping once no line is left;
/// `None` where a change does not fit the lines it is made to.
pub open spec fn mutated(lines: Seq<Seq<char>>, ms: Seq<Mutation>) -> Option<Seq<Seq<char>>>
    decreases ms.len(),
{
    if ms.len() == 0 || lines.len() == 0 {
        Some(lines)
    } else if !fits(ms[0], lines) {
        None
    } else {
        mutated(applied(ms[0], lines), ms.skip(1))
    }
}

/// What mutating `source` with `ms` gives: `source` itself where it has no
/// lines; otherwise its lines after the changes, joined by newlines.
pub open spec fn mutated_source(source: Seq<char>, ms: Seq<Mutation>) -> Option<Seq<char>> {
    let lines = lines_from(source, 0);
    if lines.len() == 0 {
        Some(source)
    } else {
        match mutated(lines, ms) {
            Some(out) => Some(joined(out, "\n"@)),
            None => None,
        }
    }
}

fn char_size(c: char) -> (r: u32)
    ensures
        r == char_bytes(c),
{
    let v = c as u32;
    if v < 0x80 {
        1
    } else if v < 0x800 {
        2
    } else if v < 0x10000 {
        3
    } else {
        4
    }
}

/// Whether `s` has more than `cut` bytes in UTF-8.
fn longer_than(s: &String, cut: usize) -> (r: bool)
    ensures
        r == (byte_len(s@) > cut),
{
    let cs = chars_of(s.as_str());
    let mut k: usize = 0;
    let mut bytes: u128 = 0;
    assert(cs@.skip(0) =~= cs@);
    while k < cs.len()
        invariant
            k <= cs@.len(),
            cs@ == s@,
            bytes <= cut,
            bytes + byte_len(cs@.skip(k as int)) == byte_len(s@),
        decreases cs.len() - k,
    {
        assert(cs@.skip(k as int).skip(1) =~= cs@.skip(k + 1));
        bytes = bytes + char_size(cs[k]) as u128;
        k = k + 1;
        if bytes > cut as u128 {
            return true;
        }
    }
    assert(cs@.skip(k as int) =~= Seq::<char>::empty());
    false
}

/// The longest start of `s` whose UTF-8 bytes fit in `cut` bytes.
fn cut_at(s: &String, cut: usize) -> (r: String)
    ensures
        r@ == prefix_within(s@, cut as nat),
{
    let cs = chars_of(s.as_str());
    let mut k: usize = 0;
    let mut left: usize = cut;
    let mut kept: Vec<char> = Vec::new();
    assert(cs@.skip(0) =~= cs@);
    while k < cs.len()
        invariant
            k <= cs@.len(),
            cs@ == s@,
            kept@ == cs@.take(k as int),
            prefix_within(s@, cut as nat) == kept@ + prefix_within(cs@.skip(k as int), left as nat),
        ensures
            k <= cs@.len(),
            cs@ == s@,
            prefix_within(s@, cut as nat) == kept@ + prefix_within(cs@.skip(k as int), left as nat),
            k < cs@.len() ==> char_bytes(cs@[k as int]) > left,
        decreases cs.len() - k,
    {
        let n = char_size(cs[k]) as usize;
        if n > left {
            break;
        }
        let ghost rest = cs@.skip(k as int);
        assert(rest[0] == cs@[k as int]);
        assert(rest.skip(1) =~= cs@.skip(k + 1));
        kept.push(cs[k]);
        left = left - n;
        k = k + 1;
        assert(kept@ =~= cs@.take(k as int));
        assert(prefix_within(s@, cut as nat) =~= kept@ + prefix_within(cs@.skip(k as int), left as nat));
    }
    proof {
        let rest = cs@.skip(k as int);
        if k < cs@.len() {
            assert(rest[0] == cs@[k as int]);
        } else {
            assert(rest =~= Seq::<char>::empty());
        }
        assert(prefix_within(rest, left as nat) =~= Seq::<char>::empty());
        assert(prefix_within(s@, cut as nat) =~= kept@);
    }
    string_of_chars(&kept)
}

/// Whether the picks of `m` fit `lines`.
fn fits_lines(m: Mutation, lines: &Vec<String>) -> (r: bool)
    ensures
        r == fits(m, string_views(lines@)),
{
    match m {
        Mutation::Delete(i) => i < lines.len(),
        Mutation::Duplicate(i) => i < lines.len(),
        Mutation::Truncate(i, cut) => {
            if i >= lines.len() {
                false
            } else if lines[i].as_str().unicode_len() == 0 {
                proof {
                    assert(string_views(lines@)[i as int] == lines@[i as int]@);
                }
                true
            } else {
                proof {
                    assert(string_views(lines@)[i as int] == lines@[i as int]@);
                }
                longer_than(&lines[i], cut)
            }
        },
        Mutation::Swap(a, b) => a < lines.len() && b < lines.len(),
    }
}

/// Makes the change `m` to the lines.
fn apply_mutation(lines: &mut Vec<String>, m: Mutation)
    requires
        fits(m, string_views(old(lines)@)),
    ensures
        string_views(final(lines)@) == applied(m, string_views(old(lines)@)),
{
    let ghost before = string_views(lines@);
    match m {
        Mutation::Delete(i) => {
            lines.remove(i);
            assert(string_views(lines@) =~= before.remove(i as int));
        },
        Mutation::Duplicate(i) => {
            let line = string_from(lines[i].as_str());
            lines.insert(i, line);
            assert(string_views(lines@) =~= before.insert(i as int, before[i as int]));
        },
        Mutation::Truncate(i, cut) => {
            if lines[i].as_str().unicode_len() > 0 {
                let t = cut_at(&lines[i], cut);
                lines.set(i, t);
                assert(string_views(lines@) =~= before.update(
                    i as int,
                    prefix_within(before[i as int], cut as nat),
                ));
            }
        },
        Mutation::Swap(a, b) => {
            let la = string_from(lines[a].as_str());
            let lb = string_from(lines[b].as_str());
            lines.set(a, lb);
            lines.set(b, la);
            assert(string_views(lines@) =~= before.update(a as int, before[b as int]).update(
                b as int,
                before[a as int],
            ));
        },
    }
}

/// `source` mutated by the changes `ms` in turn, stopping once no line is
/// left; `None` where a change does not fit the lines it is made to.
pub fn mutate_source(source: &str, ms: &[Mutation]) -> (r: Option<String>)
    ensures
        match mutated_source(source@, ms@) {
            Some(t) => r matches Some(s) && s@ == t,
            None => r is None,
        },
{
    let mut lines = text_lines(source);
    if lines.len() == 0 {
        return Some(string_from(source));
    }
    let ghost start = string_views(lines@);
    assert(start == lines_from(source@, 0));
    assert(start.len() > 0);
    let mut k: usize = 0;
    assert(ms@.skip(0) =~= ms@);
    while k < ms.len()
        invariant
            k <= ms@.len(),
            start == lines_from(source@, 0),
            start.len() > 0,
            mutated(start, ms@) == mutated(string_views(lines@), ms@.skip(k as int)),
        ensures
            start == lines_from(source@, 0),
            start.len() > 0,
            mutated(start, ms@) == Some(string_views(lines@)),
        decreases ms.len() - k,
    {
        if lines.len() == 0 {
            assert(mutated(string_views(lines@), ms@.skip(k as int)) == Some(string_views(lines@)));
            break;
        }
        let m = ms[k];
        let ghost cur = string_views(lines@);
        let ghost rest = ms@.skip(k as int);
        assert(rest[0] == m);
        assert(rest.skip(1) =~= ms@.skip(k + 1));
        if !fits_lines(m, &lines) {
            assert(rest.len() > 0 && cur.len() > 0);
            assert(mutated(cur, rest) is None);
            return None;
        }
        apply_mutation(&mut lines, m);
        k = k + 1;
        if k == ms.len() {
            assert(ms@.skip(k as int) =~= Seq::<Mutation>::empty());
        }
    }

    let out = join_strings(lines.as_slice(), "\n");
    proof {
        assert(lines@.map_values(|s: String| s@) == string_views(lines@));
    }
    Some(out)
}

} // verus!
