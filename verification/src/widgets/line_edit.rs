//! Single-line text editing with a byte-offset cursor.
//!
//! A text input keeps its text as a `String` and its cursor as a byte offset
//! into the UTF-8 form of that text. The cursor is well placed when it falls
//! on a character boundary. The model of an input is a [`Line`]: the
//! characters and the number of characters before the cursor.

use crate::text::{
    byte_len, char_width, chars_of, lemma_byte_len_prefix, lemma_byte_len_push, string_of,
    width_of,
};
use vstd::prelude::*;

verus! {

/// `k` characters of `s` take exactly `cursor` bytes.
pub open spec fn boundary(s: Seq<char>, k: int, cursor: int) -> bool {
    0 <= k <= s.len() && byte_len(s.take(k)) == cursor
}

/// The byte offset `cursor` falls on a character boundary of `s`.
pub open spec fn well_placed(s: Seq<char>, cursor: int) -> bool {
    exists|k: int| boundary(s, k, cursor)
}

/// The number of characters before a well-placed cursor.
pub open spec fn cursor_index(s: Seq<char>, cursor: int) -> int {
    choose|k: int| boundary(s, k, cursor)
}

/// A byte offset is the boundary of at most one character index.
pub proof fn lemma_boundary_unique(s: Seq<char>, a: int, b: int, cursor: int)
    requires
        boundary(s, a, cursor),
        boundary(s, b, cursor),
    ensures
        a == b,
{
    if a < b {
        lemma_byte_len_prefix(s, a, b);
    } else if b < a {
        lemma_byte_len_prefix(s, b, a);
    }
}

/// The index found for a boundary is the cursor index.
pub proof fn lemma_cursor_index(s: Seq<char>, k: int, cursor: int)
    requires
        boundary(s, k, cursor),
    ensures
        well_placed(s, cursor),
        cursor_index(s, cursor) == k,
{
    lemma_boundary_unique(s, k, cursor_index(s, cursor), cursor);
}

/// The model of a text input: its characters and how many of them lie
/// before the cursor.
pub struct Line {
    pub text: Seq<char>,
    pub at: int,
}

impl Line {
    /// The cursor lies within the text.
    pub open spec fn wf(self) -> bool {
        0 <= self.at <= self.text.len()
    }

    /// The byte offset of the cursor.
    pub open spec fn offset(self) -> int {
        byte_len(self.text.take(self.at)) as int
    }

    /// The empty line.
    pub open spec fn blank() -> Line {
        Line { text: Seq::empty(), at: 0 }
    }

    /// `c` typed at the cursor, which moves behind it. A line whose cursor
    /// would leave the range of byte offsets is left as it is.
    pub open spec fn typed(self, c: char) -> Line {
        if self.offset() + char_width(c) <= usize::MAX {
            Line { text: self.text.insert(self.at, c), at: self.at + 1 }
        } else {
            self
        }
    }

    /// The character before the cursor deleted; unchanged at the start.
    pub open spec fn erased(self) -> Line {
        if self.at > 0 {
            Line { text: self.text.remove(self.at - 1), at: self.at - 1 }
        } else {
            self
        }
    }

    /// The cursor moved one character left; unchanged at the start.
    pub open spec fn moved_left(self) -> Line {
        if self.at > 0 {
            Line { at: self.at - 1, ..self }
        } else {
            self
        }
    }

    /// The cursor moved one character right; unchanged at the end, and
    /// where it would leave the range of byte offsets.
    pub open spec fn moved_right(self) -> Line {
        if self.at < self.text.len() && byte_len(self.text.take(self.at + 1)) <= usize::MAX {
            Line { at: self.at + 1, ..self }
        } else {
            self
        }
    }
}

/// The line that a text and a well-placed byte cursor stand for.
pub open spec fn line_of(text: Seq<char>, cursor: int) -> Line {
    Line { text, at: cursor_index(text, cursor) }
}

/// Finds the character index of a byte offset, if it is a boundary.
pub fn locate(v: &Vec<char>, cursor: usize) -> (r: Option<usize>)
    ensures
        match r {
            Some(k) => boundary(v@, k as int, cursor as int),
            None => !well_placed(v@, cursor as int),
        },
{
    let mut k: usize = 0;
    let mut off: usize = 0;
    assert(v@.take(0) =~= Seq::<char>::empty());
    while k < v.len() && off < cursor
        invariant
            k <= v.len(),
            off <= cursor,
            off == byte_len(v@.take(k as int)),
        decreases v.len() - k,
    {
        let w: usize = width_of(v[k]);
        proof {
            assert(v@.take(k + 1) =~= v@.take(k as int).push(v@[k as int]));
            lemma_byte_len_push(v@.take(k as int), v@[k as int]);
        }
        if w > cursor - off {
            proof {
                assert forall|j: int| !boundary(v@, j, cursor as int) by {
                    if 0 <= j <= k {
                        lemma_byte_len_prefix(v@, j, k as int);
                    } else if k < j <= v@.len() {
                        lemma_byte_len_prefix(v@, k + 1, j);
                    }
                }
            }
            return None;
        }
        off = off + w;
        k += 1;
    }
    if off == cursor {
        Some(k)
    } else {
        proof {
            assert forall|j: int| !boundary(v@, j, cursor as int) by {
                if 0 <= j <= k {
                    lemma_byte_len_prefix(v@, j, k as int);
                }
            }
        }
        None
    }
}

/// The number of bytes that the first `k` characters of `v` take.
pub fn offset_of(v: &Vec<char>, k: usize, limit: usize) -> (r: usize)
    requires
        k <= v.len(),
        byte_len(v@.take(k as int)) <= limit,
    ensures
        r == byte_len(v@.take(k as int)),
{
    let mut i: usize = 0;
    let mut off: usize = 0;
    assert(v@.take(0) =~= Seq::<char>::empty());
    while i < k
        invariant
            i <= k <= v.len(),
            off == byte_len(v@.take(i as int)),
            byte_len(v@.take(k as int)) <= limit,
        decreases k - i,
    {
        let w: usize = width_of(v[i]);
        proof {
            assert(v@.take(i + 1) =~= v@.take(i as int).push(v@[i as int]));
            lemma_byte_len_push(v@.take(i as int), v@[i as int]);
            lemma_byte_len_prefix(v@, i + 1, k as int);
        }
        off = off + w;
        i += 1;
    }
    off
}

/// Types `c` at the cursor.
pub fn type_char(input: &mut String, cursor: &mut usize, c: char)
    requires
        well_placed(old(input)@, *old(cursor) as int),
    ensures
        well_placed(final(input)@, *final(cursor) as int),
        line_of(final(input)@, *final(cursor) as int) == line_of(
            old(input)@,
            *old(cursor) as int,
        ).typed(c),
{
    let mut v = chars_of(input.as_str());
    let ghost before = v@;
    match locate(&v, *cursor) {
        Some(k) => {
            let w: usize = width_of(c);
            proof {
                lemma_cursor_index(before, k as int, *cursor as int);
            }
            if w > usize::MAX - *cursor {
                return ;
            }
            v.insert(k, c);
            proof {
                assert(v@.take(k + 1) =~= before.take(k as int).push(c));
                lemma_byte_len_push(before.take(k as int), c);
                lemma_cursor_index(v@, k + 1, *cursor + w);
            }
            *input = string_of(&v);
            *cursor = *cursor + w;
        },
        None => {},
    }
}

/// Deletes the character before the cursor, if there is one.
pub fn erase_char(input: &mut String, cursor: &mut usize)
    requires
        well_placed(old(input)@, *old(cursor) as int),
    ensures
        well_placed(final(input)@, *final(cursor) as int),
        line_of(final(input)@, *final(cursor) as int) == line_of(
            old(input)@,
            *old(cursor) as int,
        ).erased(),
        *final(cursor) <= *old(cursor),
{
    let mut v = chars_of(input.as_str());
    let ghost before = v@;
    match locate(&v, *cursor) {
        Some(k) => {
            proof {
                lemma_cursor_index(before, k as int, *cursor as int);
            }
            if k > 0 {
                proof {
                    lemma_byte_len_prefix(before, k - 1, k as int);
                }
                let prev: usize = offset_of(&v, k - 1, *cursor);
                v.remove(k - 1);
                proof {
                    assert(v@.take(k - 1) =~= before.take(k - 1));
                    lemma_cursor_index(v@, k - 1, prev as int);
                }
                *input = string_of(&v);
                *cursor = prev;
            }
        },
        None => {},
    }
}

/// Moves the cursor one character left, if it is not at the start.
pub fn step_left(input: &String, cursor: &mut usize)
    requires
        well_placed(input@, *old(cursor) as int),
    ensures
        well_placed(input@, *final(cursor) as int),
        line_of(input@, *final(cursor) as int) == line_of(input@, *old(cursor) as int).moved_left(),
        *final(cursor) <= *old(cursor),
{
    let v = chars_of(input.as_str());
    match locate(&v, *cursor) {
        Some(k) => {
            proof {
                lemma_cursor_index(v@, k as int, *cursor as int);
            }
            if k > 0 {
                proof {
                    lemma_byte_len_prefix(v@, k - 1, k as int);
                }
                let prev: usize = offset_of(&v, k - 1, *cursor);
                proof {
                    lemma_cursor_index(v@, k - 1, prev as int);
                }
                *cursor = prev;
            }
        },
        None => {},
    }
}

/// Moves the cursor one character right, if it is not at the end.
pub fn step_right(input: &String, cursor: &mut usize)
    requires
        well_placed(input@, *old(cursor) as int),
    ensures
        well_placed(input@, *final(cursor) as int),
        line_of(input@, *final(cursor) as int) == line_of(
            input@,
            *old(cursor) as int,
        ).moved_right(),
{
    let v = chars_of(input.as_str());
    match locate(&v, *cursor) {
        Some(k) => {
            proof {
                lemma_cursor_index(v@, k as int, *cursor as int);
            }
            if k < v.len() {
                let w: usize = width_of(v[k]);
                proof {
                    assert(v@.take(k + 1) =~= v@.take(k as int).push(v@[k as int]));
                    lemma_byte_len_push(v@.take(k as int), v@[k as int]);
                }
                if w <= usize::MAX - *cursor {
                    proof {
                        lemma_cursor_index(v@, k + 1, *cursor + w);
                    }
                    *cursor = *cursor + w;
                }
            }
        },
        None => {},
    }
}

/// Counts the characters before a well-placed cursor.
pub fn chars_before(input: &String, cursor: usize) -> (r: usize)
    requires
        well_placed(input@, cursor as int),
    ensures
        r == cursor_index(input@, cursor as int),
        r <= input@.len(),
{
    let v = chars_of(input.as_str());
    match locate(&v, cursor) {
        Some(k) => {
            proof {
                lemma_cursor_index(v@, k as int, cursor as int);
            }
            k
        },
        None => 0,
    }
}

} // verus!
