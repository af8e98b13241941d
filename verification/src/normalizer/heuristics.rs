//! What is looked for in a line that is neither JSON nor a key/value line: a
//! timestamp at its start, a level word anywhere, and a token shaped like a
//! request id.

use crate::search::query::{buffers_view, split_tokens, tokens};
use crate::text::{
    command_word, digit_char, has_prefix, is_digit, lower, lower_char, starts_with,
    chars_of, to_lower, to_lower_char, trim_start,
};
use crate::types::{level_named, LogLevel};
use vstd::prelude::*;

verus! {

// ---------------------------------------------------------------------------
// Timestamps
// ---------------------------------------------------------------------------

/// The token without a `[` in front of it and without a `]` behind it.
pub open spec fn unbracket(t: Seq<char>) -> Seq<char> {
    let a = if t.len() > 0 && t.first() == '[' {
        t.drop_first()
    } else {
        t
    };
    if a.len() > 0 && a.last() == ']' {
        a.drop_last()
    } else {
        a
    }
}

/// The text begins with a date and a time of day in the form
/// `2024-01-15 10:00:00`.
pub open spec fn date_time_shape(s: Seq<char>) -> bool {
    &&& s.len() >= 19
    &&& is_digit(s[0]) && is_digit(s[1]) && is_digit(s[2]) && is_digit(s[3])
    &&& s[4] == '-'
    &&& is_digit(s[5]) && is_digit(s[6])
    &&& s[7] == '-'
    &&& is_digit(s[8]) && is_digit(s[9])
    &&& s[10] == ' '
    &&& is_digit(s[11]) && is_digit(s[12])
    &&& s[13] == ':'
    &&& is_digit(s[14]) && is_digit(s[15])
    &&& s[16] == ':'
    &&& is_digit(s[17]) && is_digit(s[18])
}

/// The date and time at the start of the text, written as RFC 3339 in UTC:
/// the date, `T`, the time of day, `Z`.
pub open spec fn as_rfc3339(s: Seq<char>) -> Seq<char> {
    s.subrange(0, 10) + seq!['T'] + s.subrange(11, 19) + seq!['Z']
}

/// The first candidate for a timestamp: the first token of the line,
/// without brackets around it.
pub open spec fn first_candidate(raw: Seq<char>) -> Seq<char> {
    unbracket(command_word(raw))
}

/// The second candidate for a timestamp: the date and time at the start of
/// the line, if it starts with one.
pub open spec fn second_candidate(raw: Seq<char>) -> Option<Seq<char>> {
    let s = trim_start(raw);
    if date_time_shape(s) {
        Some(as_rfc3339(s))
    } else {
        None
    }
}

/// The number of the month that three letters name, in any case.
pub open spec fn month_number(a: char, b: char, c: char) -> Option<u8> {
    let t = (lower_char(a), lower_char(b), lower_char(c));
    if t == ('j', 'a', 'n') {
        Some(1u8)
    } else if t == ('f', 'e', 'b') {
        Some(2u8)
    } else if t == ('m', 'a', 'r') {
        Some(3u8)
    } else if t == ('a', 'p', 'r') {
        Some(4u8)
    } else if t == ('m', 'a', 'y') {
        Some(5u8)
    } else if t == ('j', 'u', 'n') {
        Some(6u8)
    } else if t == ('j', 'u', 'l') {
        Some(7u8)
    } else if t == ('a', 'u', 'g') {
        Some(8u8)
    } else if t == ('s', 'e', 'p') {
        Some(9u8)
    } else if t == ('o', 'c', 't') {
        Some(10u8)
    } else if t == ('n', 'o', 'v') {
        Some(11u8)
    } else if t == ('d', 'e', 'c') {
        Some(12u8)
    } else {
        None
    }
}

/// The text holds a time of day in the form `10:00:00` at `at`.
pub open spec fn time_shape(s: Seq<char>, at: int) -> bool {
    &&& 0 <= at
    &&& s.len() >= at + 8
    &&& is_digit(s[at]) && is_digit(s[at + 1])
    &&& s[at + 2] == ':'
    &&& is_digit(s[at + 3]) && is_digit(s[at + 4])
    &&& s[at + 5] == ':'
    &&& is_digit(s[at + 6]) && is_digit(s[at + 7])
}

/// A date without a year and a time of day, as system logs write them.
pub struct YearlessDate {
    pub month: u8,
    /// The two digits of the day.
    pub day: (char, char),
    /// Where the time of day starts.
    pub time_at: int,
}

/// The date and time at the start of a text in the form `Jan 15 10:00:00`.
/// The day has two digits, or one with a blank in front of it or without.
pub open spec fn yearless_date(s: Seq<char>) -> Option<YearlessDate> {
    if s.len() >= 7 && month_number(s[0], s[1], s[2]) is Some && s[3] == ' ' && (is_digit(s[4])
        || s[4] == ' ') && is_digit(s[5]) && s[6] == ' ' && time_shape(s, 7) {
        Some(
            YearlessDate {
                month: month_number(s[0], s[1], s[2])->0,
                day: (
                    if s[4] == ' ' {
                        '0'
                    } else {
                        s[4]
                    },
                    s[5],
                ),
                time_at: 7,
            },
        )
    } else if s.len() >= 6 && month_number(s[0], s[1], s[2]) is Some && s[3] == ' ' && is_digit(
        s[4],
    ) && s[5] == ' ' && time_shape(s, 6) {
        Some(YearlessDate { month: month_number(s[0], s[1], s[2])->0, day: ('0', s[4]), time_at: 6 })
    } else {
        None
    }
}

/// A number below 100 in two digits.
pub open spec fn two_digits(n: nat) -> Seq<char> {
    seq![digit_char(n / 10), digit_char(n % 10)]
}

/// A year from 0 to 9999 in four digits.
pub open spec fn year_text(y: nat) -> Seq<char> {
    seq![digit_char(y / 1000), digit_char(y / 100 % 10), digit_char(y / 10 % 10), digit_char(y % 10)]
}

/// The third candidate for a timestamp: the date without a year and the
/// time at the start of the line, if it starts with them, in the given
/// year, written as RFC 3339 in UTC. There is none without a year from 0 to
/// 9999.
pub open spec fn third_candidate(raw: Seq<char>, year: Option<i32>) -> Option<Seq<char>> {
    let s = trim_start(raw);
    match (yearless_date(s), year) {
        (Some(d), Some(y)) => if 0 <= y <= 9999 {
            Some(
                year_text(y as nat) + seq!['-'] + two_digits(d.month as nat) + seq![
                    '-',
                    d.day.0,
                    d.day.1,
                    'T',
                ] + s.subrange(d.time_at, d.time_at + 8) + seq!['Z'],
            )
        } else {
            None
        },
        _ => None,
    }
}

/// Reads the number of the month that three letters name.
pub fn read_month(a: char, b: char, c: char) -> (r: Option<u8>)
    ensures
        r == month_number(a, b, c),
{
    let t = (to_lower_char(a), to_lower_char(b), to_lower_char(c));
    if t.0 == 'j' && t.1 == 'a' && t.2 == 'n' {
        Some(1)
    } else if t.0 == 'f' && t.1 == 'e' && t.2 == 'b' {
        Some(2)
    } else if t.0 == 'm' && t.1 == 'a' && t.2 == 'r' {
        Some(3)
    } else if t.0 == 'a' && t.1 == 'p' && t.2 == 'r' {
        Some(4)
    } else if t.0 == 'm' && t.1 == 'a' && t.2 == 'y' {
        Some(5)
    } else if t.0 == 'j' && t.1 == 'u' && t.2 == 'n' {
        Some(6)
    } else if t.0 == 'j' && t.1 == 'u' && t.2 == 'l' {
        Some(7)
    } else if t.0 == 'a' && t.1 == 'u' && t.2 == 'g' {
        Some(8)
    } else if t.0 == 's' && t.1 == 'e' && t.2 == 'p' {
        Some(9)
    } else if t.0 == 'o' && t.1 == 'c' && t.2 == 't' {
        Some(10)
    } else if t.0 == 'n' && t.1 == 'o' && t.2 == 'v' {
        Some(11)
    } else if t.0 == 'd' && t.1 == 'e' && t.2 == 'c' {
        Some(12)
    } else {
        None
    }
}

/// Tells whether `v[from..]` holds a time of day at `at`.
fn has_time(v: &Vec<char>, from: usize, at: usize) -> (r: bool)
    requires
        from <= v.len(),
        at <= 7,
    ensures
        r == time_shape(v@.skip(from as int), at as int),
{
    let ghost s = v@.skip(from as int);
    if v.len() - from < at + 8 {
        return false;
    }
    let p: usize = from + at;
    assert(forall|k: int| 0 <= k < s.len() ==> #[trigger] s[k] == v@[from + k]);
    is_digit_char(v[p]) && is_digit_char(v[p + 1]) && v[p + 2] == ':' && is_digit_char(v[p + 3])
        && is_digit_char(v[p + 4]) && v[p + 5] == ':' && is_digit_char(v[p + 6]) && is_digit_char(
        v[p + 7],
    )
}

/// Tells whether a character is a decimal digit.
fn is_digit_char(c: char) -> (r: bool)
    ensures
        r == is_digit(c),
{
    '0' <= c && c <= '9'
}

/// The character of a decimal digit.
fn digit_of(d: u32) -> (r: char)
    requires
        d < 10,
    ensures
        r == digit_char(d as nat),
{
    let b: u8 = (d + 48) as u8;
    b as char
}

/// Reads the date without a year and the time at the start of `v[from..]`,
/// if it has that shape, and writes them as RFC 3339 in the given year.
pub fn read_yearless(v: &Vec<char>, from: usize, year: Option<i32>) -> (r: Option<Vec<char>>)
    requires
        from <= v.len(),
    ensures
        match r {
            Some(t) => match (yearless_date(v@.skip(from as int)), year) {
                (Some(d), Some(y)) => 0 <= y <= 9999 && t@ == year_text(y as nat) + seq!['-']
                    + two_digits(d.month as nat) + seq!['-', d.day.0, d.day.1, 'T'] + v@.skip(
                    from as int,
                ).subrange(d.time_at, d.time_at + 8) + seq!['Z'],
                _ => false,
            },
            None => match (yearless_date(v@.skip(from as int)), year) {
                (Some(d), Some(y)) => !(0 <= y <= 9999),
                _ => true,
            },
        },
{
    let ghost s = v@.skip(from as int);
    let y: u32 = match year {
        Some(y) => if 0 <= y && y <= 9999 {
            y as u32
        } else {
            return None;
        },
        None => {
            return None;
        },
    };
    if v.len() - from < 6 {
        return None;
    }
    assert(forall|k: int| 0 <= k < s.len() ==> #[trigger] s[k] == v@[from + k]);
    let month: u8 = match read_month(v[from], v[from + 1], v[from + 2]) {
        Some(m) => m,
        None => {
            return None;
        },
    };
    if v[from + 3] != ' ' {
        return None;
    }
    let c4 = v[from + 4];
    let c5 = v[from + 5];
    let (d1, d2, at): (char, char, usize) = if v.len() - from >= 7 && (is_digit_char(c4) || c4
        == ' ') && is_digit_char(c5) && v[from + 6] == ' ' && has_time(v, from, 7) {
        (
            if c4 == ' ' {
                '0'
            } else {
                c4
            },
            c5,
            7,
        )
    } else if is_digit_char(c4) && c5 == ' ' && has_time(v, from, 6) {
        ('0', c4, 6)
    } else {
        return None;
    };
    let ghost d = yearless_date(s)->0;
    assert(yearless_date(s) is Some && d.month == month && d.day == (d1, d2) && d.time_at == at);
    let mut r: Vec<char> = Vec::new();
    r.push(digit_of(y / 1000));
    r.push(digit_of(y / 100 % 10));
    r.push(digit_of(y / 10 % 10));
    r.push(digit_of(y % 10));
    r.push('-');
    let m: u32 = month as u32;
    r.push(digit_of(m / 10));
    r.push(digit_of(m % 10));
    r.push('-');
    r.push(d1);
    r.push(d2);
    r.push('T');
    let ghost head = r@;
    assert(head =~= year_text(y as nat) + seq!['-'] + two_digits(month as nat) + seq![
        '-',
        d1,
        d2,
        'T',
    ]);
    let mut j: usize = 0;
    while j < 8
        invariant
            j <= 8,
            at <= 7,
            from + at + 8 <= v.len(),
            s == v@.skip(from as int),
            r@ == head + s.subrange(at as int, at + j),
        decreases 8 - j,
    {
        r.push(v[from + at + j]);
        assert(r@ =~= head + s.subrange(at as int, at + j + 1));
        j += 1;
    }
    r.push('Z');
    Some(r)
}

/// Takes the brackets off a token.
pub fn strip_brackets(v: &Vec<char>, lo: usize, hi: usize) -> (r: Vec<char>)
    requires
        lo <= hi <= v.len(),
    ensures
        r@ == unbracket(v@.subrange(lo as int, hi as int)),
{
    let ghost t = v@.subrange(lo as int, hi as int);
    let a: usize = if lo < hi && v[lo] == '[' {
        lo + 1
    } else {
        lo
    };
    assert(v@.subrange(a as int, hi as int) =~= if t.len() > 0 && t.first() == '[' {
        t.drop_first()
    } else {
        t
    });
    let b: usize = if a < hi && v[hi - 1] == ']' {
        hi - 1
    } else {
        hi
    };
    let mut r: Vec<char> = Vec::new();
    let mut i: usize = a;
    while i < b
        invariant
            a <= i <= b <= v.len(),
            r@ == v@.subrange(a as int, i as int),
        decreases b - i,
    {
        r.push(v[i]);
        assert(r@ =~= v@.subrange(a as int, i + 1));
        i += 1;
    }
    assert(v@.subrange(a as int, b as int) =~= unbracket(t));
    r
}

/// Reads the date and time at the start of `v[from..]`, if it has that
/// shape, and writes it as RFC 3339.
pub fn read_date_time(v: &Vec<char>, from: usize) -> (r: Option<Vec<char>>)
    requires
        from <= v.len(),
    ensures
        match r {
            Some(t) => date_time_shape(v@.skip(from as int)) && t@ == as_rfc3339(
                v@.skip(from as int),
            ),
            None => !date_time_shape(v@.skip(from as int)),
        },
{
    let ghost s = v@.skip(from as int);
    if v.len() - from < 19 {
        return None;
    }
    let mut i: usize = 0;
    let mut ok: bool = true;
    while i < 19
        invariant
            i <= 19,
            from + 19 <= v.len(),
            s == v@.skip(from as int),
            ok == forall|k: int|
                0 <= k < i ==> if k == 4 || k == 7 {
                    s[k] == '-'
                } else if k == 10 {
                    s[k] == ' '
                } else if k == 13 || k == 16 {
                    s[k] == ':'
                } else {
                    is_digit(#[trigger] s[k])
                },
        decreases 19 - i,
    {
        let c = v[from + i];
        assert(c == s[i as int]);
        let good: bool = if i == 4 || i == 7 {
            c == '-'
        } else if i == 10 {
            c == ' '
        } else if i == 13 || i == 16 {
            c == ':'
        } else {
            '0' <= c && c <= '9'
        };
        if !good {
            ok = false;
        }
        i += 1;
    }
    if !ok {
        return None;
    }
    assert(date_time_shape(s)) by {
        assert(is_digit(s[0]) && is_digit(s[1]) && is_digit(s[2]) && is_digit(s[3]));
        assert(is_digit(s[5]) && is_digit(s[6]) && is_digit(s[8]) && is_digit(s[9]));
        assert(is_digit(s[11]) && is_digit(s[12]) && is_digit(s[14]) && is_digit(s[15]));
        assert(is_digit(s[17]) && is_digit(s[18]));
    }
    let mut r: Vec<char> = Vec::new();
    let mut j: usize = 0;
    while j < 19
        invariant
            j <= 19,
            from + 19 <= v.len(),
            s == v@.skip(from as int),
            r@.len() == j,
            forall|k: int|
                0 <= k < j ==> #[trigger] r@[k] == if k == 10 {
                    'T'
                } else {
                    s[k]
                },
        decreases 19 - j,
    {
        if j == 10 {
            r.push('T');
        } else {
            r.push(v[from + j]);
        }
        j += 1;
    }
    r.push('Z');
    assert(r@ =~= as_rfc3339(s));
    Some(r)
}

// ---------------------------------------------------------------------------
// Level words
// ---------------------------------------------------------------------------

/// An ASCII letter.
pub open spec fn is_letter(c: char) -> bool {
    ('a' <= c <= 'z') || ('A' <= c <= 'Z')
}

/// The first position from `i` on that holds a letter; the length if there
/// is none.
pub open spec fn letters_start(s: Seq<char>, i: int) -> int
    decreases s.len() - i,
{
    if 0 <= i < s.len() && !is_letter(s[i]) {
        letters_start(s, i + 1)
    } else {
        i
    }
}

/// The first position from `i` on that holds no letter; the length if there
/// is none.
pub open spec fn letters_end(s: Seq<char>, i: int) -> int
    decreases s.len() - i,
{
    if 0 <= i < s.len() && is_letter(s[i]) {
        letters_end(s, i + 1)
    } else {
        i
    }
}

/// The level that the first level word from position `i` on names. A word
/// is a longest run of letters; it is a level word if, in lower case, it is
/// the name of a level.
pub open spec fn level_from(s: Seq<char>, i: int) -> Option<LogLevel>
    decreases s.len() - i,
{
    let j = letters_start(s, i);
    let k = letters_end(s, j);
    if i < 0 || j >= s.len() || k <= i || k > s.len() || j > k {
        None
    } else {
        match level_named(lower(s.subrange(j, k))) {
            Some(l) => Some(l),
            None => level_from(s, k),
        }
    }
}

/// The level that the first level word of the line names, if the line has
/// one.
pub open spec fn level_word(s: Seq<char>) -> Option<LogLevel> {
    level_from(s, 0)
}

/// Tells whether a character is an ASCII letter.
fn letter(c: char) -> (r: bool)
    ensures
        r == is_letter(c),
{
    ('a' <= c && c <= 'z') || ('A' <= c && c <= 'Z')
}

/// Finds the level that the first level word of a line names.
pub fn find_level(v: &Vec<char>) -> (r: Option<LogLevel>)
    ensures
        r == level_word(v@),
{
    let mut i: usize = 0;
    loop
        invariant
            i <= v.len(),
            level_word(v@) == level_from(v@, i as int),
        decreases v.len() - i,
    {
        let mut j: usize = i;
        while j < v.len() && !letter(v[j])
            invariant
                i <= j <= v.len(),
                letters_start(v@, i as int) == letters_start(v@, j as int),
            decreases v.len() - j,
        {
            j += 1;
        }
        if j >= v.len() {
            return None;
        }
        let mut k: usize = j;
        while k < v.len() && letter(v[k])
            invariant
                j <= k <= v.len(),
                letters_end(v@, j as int) == letters_end(v@, k as int),
            decreases v.len() - k,
        {
            k += 1;
        }
        let mut word: Vec<char> = Vec::new();
        let mut w: usize = j;
        while w < k
            invariant
                j <= w <= k <= v.len(),
                word@ == v@.subrange(j as int, w as int),
            decreases k - w,
        {
            word.push(v[w]);
            assert(word@ =~= v@.subrange(j as int, w + 1));
            w += 1;
        }
        match LogLevel::from_name(&to_lower(&word)) {
            Some(l) => {
                return Some(l);
            },
            None => {},
        }
        i = k;
    }
}

// ---------------------------------------------------------------------------
// Request ids
// ---------------------------------------------------------------------------

/// A hexadecimal digit, in either letter case.
pub open spec fn is_hex_digit(c: char) -> bool {
    ('0' <= c <= '9') || ('a' <= c <= 'f') || ('A' <= c <= 'F')
}

/// The token is shaped like a UUID: 36 characters, hyphens at the positions
/// 8, 13, 18 and 23, hexadecimal digits elsewhere.
pub open spec fn is_uuid(t: Seq<char>) -> bool {
    &&& t.len() == 36
    &&& forall|k: int|
        0 <= k < 36 ==> if k == 8 || k == 13 || k == 18 || k == 23 {
            t[k] == '-'
        } else {
            is_hex_digit(#[trigger] t[k])
        }
}

/// The request id that a token holds: the token itself if it begins with
/// `req-` or is shaped like a UUID, what follows `rid=` if it begins with
/// that.
pub open spec fn request_id_of(t: Seq<char>) -> Option<Seq<char>> {
    if has_prefix(t, "req-"@) && t.len() > 4 {
        Some(t)
    } else if has_prefix(t, "rid="@) && t.len() > 4 {
        Some(t.skip(4))
    } else if is_uuid(t) {
        Some(t)
    } else {
        None
    }
}

/// The request id of the first token that holds one.
pub open spec fn first_request_id(toks: Seq<Seq<char>>) -> Option<Seq<char>>
    decreases toks.len(),
{
    if toks.len() == 0 {
        None
    } else {
        match request_id_of(toks.first()) {
            Some(id) => Some(id),
            None => first_request_id(toks.drop_first()),
        }
    }
}

/// The request id of a line: that of its first token that holds one.
pub open spec fn request_id(raw: Seq<char>) -> Option<Seq<char>> {
    first_request_id(tokens(raw))
}

/// Tells whether a token is shaped like a UUID.
fn check_uuid(t: &Vec<char>) -> (r: bool)
    ensures
        r == is_uuid(t@),
{
    if t.len() != 36 {
        return false;
    }
    let mut k: usize = 0;
    while k < 36
        invariant
            k <= 36,
            t@.len() == 36,
            forall|j: int|
                0 <= j < k ==> if j == 8 || j == 13 || j == 18 || j == 23 {
                    t@[j] == '-'
                } else {
                    is_hex_digit(#[trigger] t@[j])
                },
        decreases 36 - k,
    {
        let c = t[k];
        let good: bool = if k == 8 || k == 13 || k == 18 || k == 23 {
            c == '-'
        } else {
            ('0' <= c && c <= '9') || ('a' <= c && c <= 'f') || ('A' <= c && c <= 'F')
        };
        if !good {
            return false;
        }
        k += 1;
    }
    true
}

/// Reads the request id that a token holds.
fn read_request_id(t: &Vec<char>) -> (r: Option<Vec<char>>)
    ensures
        match r {
            Some(id) => request_id_of(t@) == Some(id@),
            None => request_id_of(t@) is None,
        },
{
    let whole: bool = (starts_with(t, &chars_of("req-")) && t.len() > 4);
    let keyed: bool = starts_with(t, &chars_of("rid=")) && t.len() > 4;
    if whole || (!keyed && check_uuid(t)) {
        let mut id: Vec<char> = Vec::new();
        let mut i: usize = 0;
        while i < t.len()
            invariant
                i <= t.len(),
                id@ == t@.take(i as int),
            decreases t.len() - i,
        {
            id.push(t[i]);
            assert(id@ =~= t@.take(i + 1));
            i += 1;
        }
        assert(t@.take(t@.len() as int) =~= t@);
        Some(id)
    } else if keyed {
        let mut id: Vec<char> = Vec::new();
        let mut i: usize = 4;
        while i < t.len()
            invariant
                4 <= i <= t.len(),
                id@ == t@.subrange(4, i as int),
            decreases t.len() - i,
        {
            id.push(t[i]);
            assert(id@ =~= t@.subrange(4, i + 1));
            i += 1;
        }
        assert(t@.subrange(4, t@.len() as int) =~= t@.skip(4));
        Some(id)
    } else {
        None
    }
}

/// Finds the request id of a line.
pub fn find_request_id(v: &Vec<char>) -> (r: Option<Vec<char>>)
    ensures
        match r {
            Some(id) => request_id(v@) == Some(id@),
            None => request_id(v@) is None,
        },
{
    let toks = split_tokens(v);
    let ghost all = tokens(v@);
    let mut i: usize = 0;
    assert(all.skip(0) =~= all);
    while i < toks.len()
        invariant
            i <= toks.len(),
            all == buffers_view(toks@),
            all == tokens(v@),
            first_request_id(all) == first_request_id(all.skip(i as int)),
        decreases toks.len() - i,
    {
        assert(all.skip(i as int).first() == toks@[i as int]@);
        assert(all.skip(i as int).drop_first() =~= all.skip(i + 1));
        match read_request_id(&toks[i]) {
            Some(id) => {
                return Some(id);
            },
            None => {},
        }
        i += 1;
    }
    None
}

} // verus!
