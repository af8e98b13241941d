//! Headless mode: what is printed when the program runs without its
//! interactive front-end.
//!
//! The program reads its feed into the store and hands the entries over;
//! the library applies the query, keeps the newest entries if only those are
//! asked for, and builds the lines in the chosen format.

use crate::export::{export_lines, exported, Format};
use crate::layout::strings_view;
use crate::search::engine::{filter_parsed, matching};
use crate::search::ontology::{Ontology, MAX_GREED};
use crate::search::query::{parse_query, parse_query_spec, QueryError, QueryErrorView};
use crate::text::{all_digits, chars_of, decimal_value, is_digit, range_is, read_unsigned};
use crate::types::{entries_view, EntryView, LogEntry};
use vstd::prelude::*;

verus! {

// ---------------------------------------------------------------------------
// Durations
// ---------------------------------------------------------------------------

/// The largest count of a unit that a duration may have.
pub const MAX_COUNT: u64 = 1_000_000_000_000;

/// The number of digits at the start of a text.
pub open spec fn leading_digits(s: Seq<char>) -> nat
    decreases s.len(),
{
    if s.len() == 0 || !is_digit(s[0]) {
        0
    } else {
        1 + leading_digits(s.drop_first())
    }
}

/// The milliseconds of a unit of time: `ms`, `s`, `m` or `h`.
pub open spec fn unit_millis(unit: Seq<char>) -> Option<nat> {
    if unit == "ms"@ {
        Some(1nat)
    } else if unit == "s"@ {
        Some(1_000nat)
    } else if unit == "m"@ {
        Some(60_000nat)
    } else if unit == "h"@ {
        Some(3_600_000nat)
    } else {
        None
    }
}

/// The milliseconds of a duration such as `100ms` or `5s`: a count in
/// digits, at most a million millions, and a unit, with nothing between
/// them or around them.
pub open spec fn duration_millis(s: Seq<char>) -> Option<nat> {
    let k = leading_digits(s) as int;
    if k == 0 {
        None
    } else {
        match unit_millis(s.skip(k)) {
            Some(unit) => if decimal_value(s.take(k)) <= MAX_COUNT {
                Some(decimal_value(s.take(k)) * unit)
            } else {
                None
            },
            None => None,
        }
    }
}

/// The digits at the start of a text are digits, and what follows them is
/// none.
pub proof fn lemma_leading_digits(s: Seq<char>)
    ensures
        leading_digits(s) <= s.len(),
        all_digits(s.take(leading_digits(s) as int)),
        leading_digits(s) < s.len() ==> !is_digit(s[leading_digits(s) as int]),
    decreases s.len(),
{
    if s.len() > 0 && is_digit(s[0]) {
        let t = s.drop_first();
        lemma_leading_digits(t);
        let k = leading_digits(t) as int;
        assert forall|i: int| 0 <= i < k + 1 implies is_digit(#[trigger] s.take(k + 1)[i]) by {
            if i > 0 {
                assert(s.take(k + 1)[i] == t.take(k)[i - 1]);
            }
        }
        if k + 1 < s.len() {
            assert(s[k + 1] == t[k]);
        }
    }
}

/// A text that starts with `i` digits has as many more as its rest.
pub proof fn lemma_leading_digits_skip(s: Seq<char>, i: int)
    requires
        0 <= i <= s.len(),
        forall|k: int| 0 <= k < i ==> is_digit(#[trigger] s[k]),
    ensures
        leading_digits(s) == i + leading_digits(s.skip(i)),
    decreases i,
{
    if i == 0 {
        assert(s.skip(0) =~= s);
    } else {
        assert(is_digit(s[0]));
        lemma_leading_digits_skip(s.drop_first(), i - 1);
        assert(s.drop_first().skip(i - 1) =~= s.skip(i));
    }
}

/// Reads a duration such as `100ms` or `5s`, in milliseconds.
pub fn parse_duration(text: &str) -> (r: Option<u64>)
    ensures
        match r {
            Some(ms) => duration_millis(text@) == Some(ms as nat),
            None => duration_millis(text@) is None,
        },
{
    let v = chars_of(text);
    let mut k: usize = 0;
    while k < v.len() && '0' <= v[k] && v[k] <= '9'
        invariant
            k <= v.len(),
            forall|j: int| 0 <= j < k ==> is_digit(#[trigger] v@[j]),
        decreases v.len() - k,
    {
        k += 1;
    }
    proof {
        lemma_leading_digits_skip(v@, k as int);
        assert(leading_digits(v@.skip(k as int)) == 0);
        assert(v@.skip(k as int) =~= v@.subrange(k as int, v@.len() as int));
        assert(v@.take(k as int) =~= v@.subrange(0, k as int));
    }
    if k == 0 {
        return None;
    }
    let unit: u64 = if range_is(&v, k, v.len(), "ms") {
        1
    } else if range_is(&v, k, v.len(), "s") {
        1_000
    } else if range_is(&v, k, v.len(), "m") {
        60_000
    } else if range_is(&v, k, v.len(), "h") {
        3_600_000
    } else {
        return None;
    };
    assert(v@[0] != '+');
    assert(all_digits(v@.subrange(0, k as int)));
    match read_unsigned(&v, 0, k, MAX_COUNT) {
        Some(n) => {
            assert(n * unit <= u64::MAX) by (nonlinear_arith)
                requires
                    n <= 1_000_000_000_000,
                    unit <= 3_600_000,
            ;
            Some(n * unit)
        },
        None => None,
    }
}

// ---------------------------------------------------------------------------
// Output
// ---------------------------------------------------------------------------

/// What a headless run is asked for.
#[derive(Debug)]
pub struct Request {
    /// The query that entries must meet; every entry meets the empty one.
    pub query: String,
    /// The greed level, from 0 to 10.
    pub greed: u8,
    /// The number of newest entries to print, if only those are wanted.
    pub tail: Option<usize>,
    pub format: Format,
    /// Whether the time, the kind of feed and the producer are printed.
    pub metadata: bool,
}

/// The last `n` of a list, or all of it if it has no more.
pub open spec fn newest<T>(s: Seq<T>, n: nat) -> Seq<T> {
    if n >= s.len() {
        s
    } else {
        s.skip(s.len() - n)
    }
}

/// The entries that a headless run prints: those that meet the query, in
/// the order of the store, and of these the newest if only those are
/// wanted.
pub open spec fn printed(
    o: &Ontology,
    q: crate::search::query::QueryView,
    greed: int,
    tail: Option<usize>,
    es: Seq<EntryView>,
) -> Seq<EntryView> {
    match tail {
        Some(n) => newest(matching(o, q, es, greed), n as nat),
        None => matching(o, q, es, greed),
    }
}

/// The lines that a headless run prints for the entries, or the error of
/// its query.
pub open spec fn output(o: &Ontology, query: Seq<char>, req: Request, es: Seq<EntryView>) -> Result<
    Seq<Seq<char>>,
    QueryErrorView,
> {
    match parse_query_spec(query) {
        Ok(q) => Ok(exported(printed(o, q, req.greed as int, req.tail, es), req.format, req.metadata)),
        Err(e) => Err(e),
    }
}

/// The content of the result of a headless run.
pub open spec fn output_view(r: Result<Vec<String>, QueryError>) -> Result<
    Seq<Seq<char>>,
    QueryErrorView,
> {
    match r {
        Ok(lines) => Ok(strings_view(lines@)),
        Err(e) => Err(e@),
    }
}

/// Copies the last `n` entries of a list, or all of it if it has no more.
pub fn take_newest(entries: &Vec<LogEntry>, n: usize) -> (r: Vec<LogEntry>)
    ensures
        entries_view(r@) == newest(entries_view(entries@), n as nat),
{
    let from: usize = if n >= entries.len() {
        0
    } else {
        entries.len() - n
    };
    let ghost es = entries_view(entries@);
    let mut r: Vec<LogEntry> = Vec::new();
    let mut i: usize = from;
    while i < entries.len()
        invariant
            from <= i <= entries.len(),
            es == entries_view(entries@),
            entries_view(r@) == es.subrange(from as int, i as int),
        decreases entries.len() - i,
    {
        let ghost before = entries_view(r@);
        r.push(entries[i].duplicate());
        assert(entries_view(r@) =~= before.push(es[i as int]));
        assert(entries_view(r@) =~= es.subrange(from as int, i + 1));
        i += 1;
    }
    assert(es.subrange(from as int, es.len() as int) =~= newest(es, n as nat));
    r
}

/// Builds the lines that a headless run prints for the entries.
///
/// A query that does not parse gives its error, and no line.
pub fn render(o: &Ontology, req: &Request, entries: &Vec<LogEntry>) -> (r: Result<
    Vec<String>,
    QueryError,
>)
    requires
        o.wf(),
        req.greed <= MAX_GREED,
    ensures
        output_view(r) == output(o, req.query@, *req, entries_view(entries@)),
{
    let q = match parse_query(req.query.as_str()) {
        Ok(q) => q,
        Err(e) => {
            return Err(e);
        },
    };
    let met = filter_parsed(o, &q, entries, req.greed);
    let chosen = match req.tail {
        Some(n) => take_newest(&met, n),
        None => met,
    };
    Ok(export_lines(&chosen, req.format, req.metadata))
}

} // verus!
