//! Key/value lines.
//!
//! A key/value line is a list of tokens `key=value` set apart by white
//! space. A key is made of letters, digits, `_`, `.`, `-` and `@`. A value
//! runs to the next white space, or stands in double quotes, where `\"`,
//! `\\`, `\n`, `\t` and `\r` are escapes. A line with a token that is no
//! such pair is no key/value line.

use crate::text::{is_space, is_whitespace};
use vstd::prelude::*;

verus! {

/// A character that a key may hold.
pub open spec fn is_name_char(c: char) -> bool {
    ('a' <= c <= 'z') || ('A' <= c <= 'Z') || ('0' <= c <= '9') || c == '_' || c == '.' || c == '-'
        || c == '@'
}

/// Tells whether a key may hold the character.
pub fn name_char(c: char) -> (r: bool)
    ensures
        r == is_name_char(c),
{
    ('a' <= c && c <= 'z') || ('A' <= c && c <= 'Z') || ('0' <= c && c <= '9') || c == '_' || c
        == '.' || c == '-' || c == '@'
}

/// The first position from `i` on that holds no white space; the length if
/// there is none.
pub open spec fn skip_spaces(s: Seq<char>, i: int) -> int
    decreases s.len() - i,
{
    if 0 <= i < s.len() && is_space(s[i]) {
        skip_spaces(s, i + 1)
    } else {
        i
    }
}

/// The first position from `i` on that holds no key character; the length
/// if there is none.
pub open spec fn name_end(s: Seq<char>, i: int) -> int
    decreases s.len() - i,
{
    if 0 <= i < s.len() && is_name_char(s[i]) {
        name_end(s, i + 1)
    } else {
        i
    }
}

/// The first position from `i` on that holds white space; the length if
/// there is none.
pub open spec fn word_end(s: Seq<char>, i: int) -> int
    decreases s.len() - i,
{
    if 0 <= i < s.len() && !is_space(s[i]) {
        word_end(s, i + 1)
    } else {
        i
    }
}

/// The character that stands behind a backslash.
pub open spec fn unescaped(c: char) -> char {
    if c == 'n' {
        '\n'
    } else if c == 't' {
        '\t'
    } else if c == 'r' {
        '\r'
    } else {
        c
    }
}

/// The quoted value whose first character stands at `i`: its text without
/// the escapes, and the position behind the closing quote. `None` if the
/// quote is never closed.
pub open spec fn quoted(s: Seq<char>, i: int) -> Option<(Seq<char>, int)>
    decreases s.len() - i,
{
    if i < 0 || i >= s.len() {
        None
    } else if s[i] == '"' {
        Some((Seq::empty(), i + 1))
    } else if s[i] == '\\' {
        if i + 1 >= s.len() {
            None
        } else {
            match quoted(s, i + 2) {
                Some((rest, end)) => Some((seq![unescaped(s[i + 1])] + rest, end)),
                None => None,
            }
        }
    } else {
        match quoted(s, i + 1) {
            Some((rest, end)) => Some((seq![s[i]] + rest, end)),
            None => None,
        }
    }
}

/// The pairs of the line from position `i` on. `None` if a token there is
/// no pair.
pub open spec fn pairs_from(s: Seq<char>, i: int) -> Option<Seq<(Seq<char>, Seq<char>)>>
    decreases s.len() - i,
{
    let j = skip_spaces(s, i);
    if i < 0 || j < i || j >= s.len() {
        if j >= s.len() && i >= 0 {
            Some(Seq::empty())
        } else {
            None
        }
    } else {
        let k = name_end(s, j);
        if k <= j || k >= s.len() || s[k] != '=' {
            None
        } else if k + 1 < s.len() && s[k + 1] == '"' {
            match quoted(s, k + 2) {
                Some((value, end)) => if end <= i || end > s.len() || (end < s.len() && !is_space(
                    s[end],
                )) {
                    None
                } else {
                    match pairs_from(s, end) {
                        Some(rest) => Some(seq![(s.subrange(j, k), value)] + rest),
                        None => None,
                    }
                },
                None => None,
            }
        } else {
            let e = word_end(s, k + 1);
            if e <= i || e > s.len() {
                None
            } else {
                match pairs_from(s, e) {
                    Some(rest) => Some(seq![(s.subrange(j, k), s.subrange(k + 1, e))] + rest),
                    None => None,
                }
            }
        }
    }
}

/// The pairs of a key/value line, in order. `None` for a line that holds a
/// token that is no pair, and for a line without tokens.
pub open spec fn logfmt_pairs(s: Seq<char>) -> Option<Seq<(Seq<char>, Seq<char>)>> {
    match pairs_from(s, 0) {
        Some(p) => if p.len() > 0 {
            Some(p)
        } else {
            None
        },
        None => None,
    }
}

/// The contents of a list of pairs of buffers.
pub open spec fn pairs_view(v: Seq<(Vec<char>, Vec<char>)>) -> Seq<(Seq<char>, Seq<char>)> {
    Seq::new(v.len(), |i: int| (v[i].0@, v[i].1@))
}

/// The content of an optional list of pairs.
pub open spec fn opt_pairs_view(r: Option<Vec<(Vec<char>, Vec<char>)>>) -> Option<
    Seq<(Seq<char>, Seq<char>)>,
> {
    match r {
        Some(v) => Some(pairs_view(v@)),
        None => None,
    }
}

/// Finds the first position from `i` on that holds no white space.
fn scan_spaces(v: &Vec<char>, i: usize) -> (r: usize)
    requires
        i <= v.len(),
    ensures
        r == skip_spaces(v@, i as int),
        i <= r <= v.len(),
{
    let mut j: usize = i;
    while j < v.len() && is_whitespace(v[j])
        invariant
            i <= j <= v.len(),
            skip_spaces(v@, i as int) == skip_spaces(v@, j as int),
        decreases v.len() - j,
    {
        j += 1;
    }
    j
}

/// Finds the first position from `i` on that holds no key character.
fn scan_name(v: &Vec<char>, i: usize) -> (r: usize)
    requires
        i <= v.len(),
    ensures
        r == name_end(v@, i as int),
        i <= r <= v.len(),
{
    let mut j: usize = i;
    while j < v.len() && name_char(v[j])
        invariant
            i <= j <= v.len(),
            name_end(v@, i as int) == name_end(v@, j as int),
        decreases v.len() - j,
    {
        j += 1;
    }
    j
}

/// Finds the first position from `i` on that holds white space.
fn scan_word(v: &Vec<char>, i: usize) -> (r: usize)
    requires
        i <= v.len(),
    ensures
        r == word_end(v@, i as int),
        i <= r <= v.len(),
{
    let mut j: usize = i;
    while j < v.len() && !is_whitespace(v[j])
        invariant
            i <= j <= v.len(),
            word_end(v@, i as int) == word_end(v@, j as int),
        decreases v.len() - j,
    {
        j += 1;
    }
    j
}

/// Reads the quoted value whose first character stands at `i`.
fn scan_quoted(v: &Vec<char>, i: usize) -> (r: Option<(Vec<char>, usize)>)
    requires
        i <= v.len(),
    ensures
        match r {
            Some((value, end)) => quoted(v@, i as int) == Some((value@, end as int)) && i < end
                <= v.len(),
            None => quoted(v@, i as int) is None,
        },
{
    let mut value: Vec<char> = Vec::new();
    let mut j: usize = i;
    loop
        invariant
            i <= j <= v.len(),
            quoted(v@, i as int) == match quoted(v@, j as int) {
                Some((rest, end)) => Some((value@ + rest, end)),
                None => None,
            },
        decreases v.len() - j,
    {
        if j >= v.len() {
            return None;
        }
        let c = v[j];
        if c == '"' {
            assert(value@ + Seq::<char>::empty() =~= value@);
            return Some((value, j + 1));
        }
        let ghost before = value@;
        if c == '\\' {
            if j + 1 >= v.len() {
                return None;
            }
            let d = v[j + 1];
            let plain: char = if d == 'n' {
                '\n'
            } else if d == 't' {
                '\t'
            } else if d == 'r' {
                '\r'
            } else {
                d
            };
            value.push(plain);
            proof {
                match quoted(v@, j + 2) {
                    Some((rest, end)) => {
                        assert(before + (seq![plain] + rest) =~= value@ + rest);
                    },
                    None => {},
                }
            }
            j += 2;
        } else {
            value.push(c);
            proof {
                match quoted(v@, j + 1) {
                    Some((rest, end)) => {
                        assert(before + (seq![c] + rest) =~= value@ + rest);
                    },
                    None => {},
                }
            }
            j += 1;
        }
    }
}

/// Copies the characters `v[from..to]`.
fn copy_range(v: &Vec<char>, from: usize, to: usize) -> (r: Vec<char>)
    requires
        from <= to <= v.len(),
    ensures
        r@ == v@.subrange(from as int, to as int),
{
    let mut r: Vec<char> = Vec::new();
    let mut i: usize = from;
    while i < to
        invariant
            from <= i <= to <= v.len(),
            r@ == v@.subrange(from as int, i as int),
        decreases to - i,
    {
        r.push(v[i]);
        assert(r@ =~= v@.subrange(from as int, i + 1));
        i += 1;
    }
    r
}

/// Reads a line as a key/value line.
pub fn parse_logfmt(v: &Vec<char>) -> (r: Option<Vec<(Vec<char>, Vec<char>)>>)
    ensures
        opt_pairs_view(r) == logfmt_pairs(v@),
{
    let mut pairs: Vec<(Vec<char>, Vec<char>)> = Vec::new();
    let mut i: usize = 0;
    assert(pairs_view(pairs@) =~= Seq::<(Seq<char>, Seq<char>)>::empty());
    loop
        invariant
            i <= v.len(),
            pairs_from(v@, 0) == match pairs_from(v@, i as int) {
                Some(rest) => Some(pairs_view(pairs@) + rest),
                None => None,
            },
        decreases v.len() - i,
    {
        let ghost done = pairs_view(pairs@);
        let j: usize = scan_spaces(v, i);
        if j >= v.len() {
            assert(done + Seq::<(Seq<char>, Seq<char>)>::empty() =~= done);
            return if pairs.len() > 0 {
                Some(pairs)
            } else {
                None
            };
        }
        let k: usize = scan_name(v, j);
        if k <= j || k >= v.len() || v[k] != '=' {
            return None;
        }
        let key = copy_range(v, j, k);
        if k + 1 < v.len() && v[k + 1] == '"' {
            match scan_quoted(v, k + 2) {
                Some((value, end)) => {
                    if end < v.len() && !is_whitespace(v[end]) {
                        return None;
                    }
                    proof {
                        match pairs_from(v@, end as int) {
                            Some(rest) => {
                                assert(done + (seq![(key@, value@)] + rest) =~= done.push(
                                    (key@, value@),
                                ) + rest);
                            },
                            None => {},
                        }
                    }
                    pairs.push((key, value));
                    assert(pairs_view(pairs@) =~= done.push((key@, value@)));
                    i = end;
                },
                None => {
                    return None;
                },
            }
        } else {
            let e: usize = scan_word(v, k + 1);
            let value = copy_range(v, k + 1, e);
            proof {
                match pairs_from(v@, e as int) {
                    Some(rest) => {
                        assert(done + (seq![(key@, value@)] + rest) =~= done.push((key@, value@))
                            + rest);
                    },
                    None => {},
                }
            }
            pairs.push((key, value));
            assert(pairs_view(pairs@) =~= done.push((key@, value@)));
            i = e;
        }
    }
}

} // verus!
