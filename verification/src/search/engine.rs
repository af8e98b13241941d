//! Matching and ranking.
//!
//! An entry meets a query if it meets every token of it: every filter
//! accepts it, every regular expression matches one of its texts, and for
//! every free term one of its texts holds the term or a term of its
//! expansion. The texts of an entry are its raw line, its message and the
//! values of its fields; terms are looked for without regard to letter case.
//!
//! The entries that meet the query are ranked: best rank first, and within
//! a rank the later entries of the input first. The rank of an entry is 0
//! where every free term occurs literally, else the largest distance at
//! which a free term was found; an entry that was found by regular
//! expressions alone has rank 11.

use crate::layout::strings_view;
use crate::search::expand::{
    expand, in_expansion, law_expansion_monotone, lemma_distance_expansion,
    lemma_graph_distance, term_distance,
};
use crate::search::ontology::{builtin_model, MAX_GREED, Ontology};
use crate::search::pattern::{is_match, regex_accepts, Pattern};
use crate::search::query::{
    buffers_view, parse_query, parse_query_spec, ParsedQuery, QueryError, QueryErrorView,
    QueryView,
};
use crate::store::Criterion;
use crate::text::{chars_of, contains, has_substring, lower, to_lower};
use crate::types::{entries_view, EntryView, LogEntry};
use vstd::prelude::*;

verus! {

/// The rank of an entry that was found by regular expressions alone.
pub const REGEX_RANK: u8 = 11;

// ---------------------------------------------------------------------------
// Texts of an entry
// ---------------------------------------------------------------------------

/// The texts of an entry in which terms and expressions are looked for: the
/// raw line, the message if there is one, and the text of every field.
pub open spec fn texts(e: EntryView) -> Seq<Seq<char>> {
    let head = match e.message {
        Some(m) => seq![e.raw, m],
        None => seq![e.raw],
    };
    head + Seq::new(e.fields.len(), |i: int| e.fields[i].1.text())
}

/// The texts in lower case.
pub open spec fn lowered(ts: Seq<Seq<char>>) -> Seq<Seq<char>> {
    Seq::new(ts.len(), |k: int| lower(ts[k]))
}

/// One of the texts holds the needle.
pub open spec fn has_any(hay: Seq<Seq<char>>, needle: Seq<char>) -> bool {
    exists|k: int| 0 <= k < hay.len() && has_substring(#[trigger] hay[k], needle)
}

/// The entry holds the needle, which is in lower case, in one of its texts,
/// whatever the letter case there.
pub open spec fn entry_has(e: EntryView, needle: Seq<char>) -> bool {
    has_any(lowered(texts(e)), needle)
}

/// The regular expression matches one of the texts.
pub open spec fn regex_any(pattern: Seq<char>, ts: Seq<Seq<char>>) -> bool {
    exists|k: int| 0 <= k < ts.len() && regex_accepts(pattern, #[trigger] ts[k])
}

/// Collects the texts of an entry.
pub fn entry_texts(e: &LogEntry) -> (r: Vec<String>)
    ensures
        strings_view(r@) == texts(e@),
{
    let mut r: Vec<String> = Vec::new();
    r.push(e.raw.clone());
    match &e.message {
        Some(m) => {
            r.push(m.clone());
        },
        None => {},
    }
    let ghost head = strings_view(r@);
    assert(head =~= match e@.message {
        Some(m) => seq![e@.raw, m],
        None => seq![e@.raw],
    });
    let mut i: usize = 0;
    while i < e.fields.len()
        invariant
            i <= e.fields.len(),
            r@.len() == head.len() + i,
            forall|k: int| 0 <= k < head.len() ==> r@[k]@ == head[k],
            forall|k: int|
                0 <= k < i ==> (#[trigger] r@[head.len() + k])@ == e.fields@[k].1@.text(),
        decreases e.fields.len() - i,
    {
        r.push(e.fields[i].1.to_text());
        i += 1;
    }
    proof {
        let tail = Seq::new(e@.fields.len(), |i: int| e@.fields[i].1.text());
        assert forall|k: int| 0 <= k < r@.len() implies strings_view(r@)[k] == (head + tail)[k] by {
            if k >= head.len() {
                assert(r@[head.len() + (k - head.len())]@ == e.fields@[k - head.len()].1@.text());
            }
        }
        assert(strings_view(r@) =~= head + tail);
    }
    r
}

/// Lower-cases a list of texts.
pub fn lower_texts(ts: &Vec<String>) -> (r: Vec<Vec<char>>)
    ensures
        buffers_view(r@) == lowered(strings_view(ts@)),
{
    let mut r: Vec<Vec<char>> = Vec::new();
    let mut i: usize = 0;
    while i < ts.len()
        invariant
            i <= ts.len(),
            r@.len() == i,
            forall|k: int| 0 <= k < i ==> (#[trigger] r@[k])@ == lower(ts@[k]@),
        decreases ts.len() - i,
    {
        r.push(to_lower(&chars_of(ts[i].as_str())));
        i += 1;
    }
    assert(buffers_view(r@) =~= lowered(strings_view(ts@)));
    r
}

/// Tells whether one of the texts holds the needle.
pub fn contains_any(hay: &Vec<Vec<char>>, needle: &Vec<char>) -> (r: bool)
    ensures
        r == has_any(buffers_view(hay@), needle@),
{
    let mut i: usize = 0;
    while i < hay.len()
        invariant
            i <= hay.len(),
            forall|k: int| 0 <= k < i ==> !has_substring(#[trigger] buffers_view(hay@)[k], needle@),
        decreases hay.len() - i,
    {
        if contains(&hay[i], needle) {
            assert(has_substring(buffers_view(hay@)[i as int], needle@));
            return true;
        }
        i += 1;
    }
    false
}

/// Tells whether a regular expression matches one of the texts.
pub fn matches_any(pattern: &Pattern, ts: &Vec<String>) -> (r: bool)
    ensures
        r == regex_any(pattern.source(), strings_view(ts@)),
{
    let mut i: usize = 0;
    while i < ts.len()
        invariant
            i <= ts.len(),
            forall|k: int|
                0 <= k < i ==> !regex_accepts(pattern.source(), #[trigger] strings_view(ts@)[k]),
        decreases ts.len() - i,
    {
        if is_match(pattern, ts[i].as_str()) {
            assert(regex_accepts(pattern.source(), strings_view(ts@)[i as int]));
            return true;
        }
        i += 1;
    }
    false
}

// ---------------------------------------------------------------------------
// Ranks
// ---------------------------------------------------------------------------

/// The entry meets a free term at a greed: it holds the term itself or a
/// term of its expansion.
pub open spec fn term_hit(o: &Ontology, e: EntryView, t: Seq<char>, greed: int) -> bool {
    entry_has(e, t) || exists|i: int|
        #[trigger] in_expansion(o, t, i, greed) && entry_has(e, o.terms@[i]@)
}

/// The least distance among the first `k` terms of the ontology that
/// belong to the expansion of `t` and occur in the entry; 0 if there is
/// none.
pub open spec fn best_upto(o: &Ontology, e: EntryView, t: Seq<char>, greed: int, k: int) -> int
    decreases k,
{
    if k <= 0 {
        0
    } else {
        let b = best_upto(o, e, t, greed, k - 1);
        let d = term_distance(o, t, k - 1, greed);
        if d > 0 && entry_has(e, o.terms@[k - 1]@) && (b == 0 || d < b) {
            d
        } else {
            b
        }
    }
}

/// The rank at which an entry meets a free term: 0 if it holds the term
/// itself, else the least distance of a term of the expansion that it
/// holds; `None` if it does not meet the term.
pub open spec fn term_rank(o: &Ontology, e: EntryView, t: Seq<char>, greed: int) -> Option<int> {
    if entry_has(e, t) {
        Some(0)
    } else {
        let b = best_upto(o, e, t, greed, o.terms@.len() as int);
        if b > 0 {
            Some(b)
        } else {
            None
        }
    }
}

/// The largest of the ranks at which the entry meets the first `k` free
/// terms; `None` if it fails one of them.
pub open spec fn terms_rank(
    o: &Ontology,
    terms: Seq<Seq<char>>,
    e: EntryView,
    greed: int,
    k: int,
) -> Option<int>
    decreases k,
{
    if k <= 0 {
        Some(0)
    } else {
        match (terms_rank(o, terms, e, greed, k - 1), term_rank(o, e, terms[k - 1], greed)) {
            (Some(a), Some(b)) => Some(
                if a >= b {
                    a
                } else {
                    b
                },
            ),
            _ => None,
        }
    }
}

/// Every filter of the query accepts the entry.
pub open spec fn filters_accept(filters: Seq<Criterion>, e: EntryView) -> bool {
    forall|i: int| 0 <= i < filters.len() ==> (#[trigger] filters[i]).accepts(e)
}

/// Every regular expression of the query matches one of the entry's texts.
pub open spec fn regexes_match(regexes: Seq<Seq<char>>, e: EntryView) -> bool {
    forall|i: int| 0 <= i < regexes.len() ==> regex_any(#[trigger] regexes[i], texts(e))
}

/// The rank of an entry under a query at a greed; `None` if the entry does
/// not meet the query.
pub open spec fn entry_rank(o: &Ontology, q: QueryView, e: EntryView, greed: int) -> Option<int> {
    if !filters_accept(q.filters, e) || !regexes_match(q.regexes, e) {
        None
    } else if q.terms.len() == 0 {
        if q.regexes.len() > 0 {
            Some(REGEX_RANK as int)
        } else {
            Some(0)
        }
    } else {
        terms_rank(o, q.terms, e, greed, q.terms.len() as int)
    }
}

/// The entry meets the query at a greed.
pub open spec fn meets(o: &Ontology, q: QueryView, e: EntryView, greed: int) -> bool {
    &&& filters_accept(q.filters, e)
    &&& regexes_match(q.regexes, e)
    &&& forall|k: int| 0 <= k < q.terms.len() ==> term_hit(o, e, #[trigger] q.terms[k], greed)
}

/// The entries of `es` whose rank is `s`, the later ones first.
pub open spec fn bucket(o: &Ontology, q: QueryView, es: Seq<EntryView>, greed: int, s: int) -> Seq<
    EntryView,
>
    decreases es.len(),
{
    if es.len() == 0 {
        Seq::empty()
    } else {
        let rest = bucket(o, q, es.drop_first(), greed, s);
        if entry_rank(o, q, es.first(), greed) == Some(s) {
            rest.push(es.first())
        } else {
            rest
        }
    }
}

/// The entries of `es` whose rank is at most `s`: rank 0 first, and within
/// a rank the later entries first.
pub open spec fn ranked_upto(
    o: &Ontology,
    q: QueryView,
    es: Seq<EntryView>,
    greed: int,
    s: int,
) -> Seq<EntryView>
    decreases s + 1,
{
    if s < 0 {
        Seq::empty()
    } else {
        ranked_upto(o, q, es, greed, s - 1) + bucket(o, q, es, greed, s)
    }
}

/// The result of a search: the entries that meet the query, best rank
/// first, and within a rank the later entries first.
pub open spec fn ranked(o: &Ontology, q: QueryView, es: Seq<EntryView>, greed: int) -> Seq<
    EntryView,
> {
    ranked_upto(o, q, es, greed, REGEX_RANK as int)
}

// ---------------------------------------------------------------------------
// Searching
// ---------------------------------------------------------------------------

/// Computes the rank at which the texts of an entry meet a free term whose
/// expansion is given by its distances.
fn rank_term(
    o: &Ontology,
    hay: &Vec<Vec<char>>,
    t: &Vec<char>,
    dist: &Vec<u8>,
    Ghost(e): Ghost<EntryView>,
    Ghost(greed): Ghost<int>,
) -> (r: Option<u8>)
    requires
        buffers_view(hay@) == lowered(texts(e)),
        dist@.len() == o.terms@.len(),
        forall|i: int| 0 <= i < dist@.len() ==> dist@[i] as int == term_distance(o, t@, i, greed),
    ensures
        match r {
            Some(v) => term_rank(o, e, t@, greed) == Some(v as int),
            None => term_rank(o, e, t@, greed) is None,
        },
{
    if contains_any(hay, t) {
        return Some(0);
    }
    let mut best: u8 = 0;
    let mut i: usize = 0;
    while i < o.terms.len()
        invariant
            i <= o.terms@.len(),
            buffers_view(hay@) == lowered(texts(e)),
            dist@.len() == o.terms@.len(),
            forall|k: int|
                0 <= k < dist@.len() ==> dist@[k] as int == term_distance(o, t@, k, greed),
            best as int == best_upto(o, e, t@, greed, i as int),
        decreases o.terms.len() - i,
    {
        let d: u8 = dist[i];
        if d > 0 && (best == 0 || d < best) && contains_any(hay, &o.terms[i]) {
            best = d;
        }
        i += 1;
    }
    if best > 0 {
        Some(best)
    } else {
        None
    }
}

/// Computes the rank of an entry under a query.
fn rank_entry(
    o: &Ontology,
    q: &ParsedQuery,
    dists: &Vec<Vec<u8>>,
    e: &LogEntry,
    Ghost(greed): Ghost<int>,
) -> (r: Option<u8>)
    requires
        0 <= greed <= MAX_GREED,
        dists@.len() == q.terms@.len(),
        forall|k: int|
            0 <= k < dists@.len() ==> (#[trigger] dists@[k])@.len() == o.terms@.len() && forall|
                i: int,
            |
                0 <= i < o.terms@.len() ==> dists@[k]@[i] as int == term_distance(
                    o,
                    q.terms@[k]@,
                    i,
                    greed,
                ),
    ensures
        match r {
            Some(v) => entry_rank(o, q@, e@, greed) == Some(v as int) && v <= REGEX_RANK,
            None => entry_rank(o, q@, e@, greed) is None,
        },
{
    let mut f: usize = 0;
    while f < q.filters.len()
        invariant
            f <= q.filters@.len(),
            forall|k: int| 0 <= k < f ==> (#[trigger] q@.filters[k]).accepts(e@),
        decreases q.filters.len() - f,
    {
        if !q.filters[f].matches(e) {
            assert(!q@.filters[f as int].accepts(e@));
            return None;
        }
        f += 1;
    }
    let ts = entry_texts(e);
    let mut p: usize = 0;
    while p < q.regexes.len()
        invariant
            p <= q.regexes@.len(),
            strings_view(ts@) == texts(e@),
            forall|k: int| 0 <= k < p ==> regex_any(#[trigger] q@.regexes[k], texts(e@)),
        decreases q.regexes.len() - p,
    {
        if !matches_any(&q.regexes[p], &ts) {
            assert(!regex_any(q@.regexes[p as int], texts(e@)));
            return None;
        }
        p += 1;
    }
    if q.terms.len() == 0 {
        return if q.regexes.len() > 0 {
            Some(REGEX_RANK)
        } else {
            Some(0)
        };
    }
    let hay = lower_texts(&ts);
    let mut worst: u8 = 0;
    let mut k: usize = 0;
    while k < q.terms.len()
        invariant
            k <= q.terms@.len(),
            0 <= greed <= MAX_GREED,
            buffers_view(hay@) == lowered(texts(e@)),
            dists@.len() == q.terms@.len(),
            forall|j: int|
                0 <= j < dists@.len() ==> (#[trigger] dists@[j])@.len() == o.terms@.len()
                    && forall|i: int|
                    0 <= i < o.terms@.len() ==> dists@[j]@[i] as int == term_distance(
                        o,
                        q.terms@[j]@,
                        i,
                        greed,
                    ),
            terms_rank(o, q@.terms, e@, greed, k as int) == Some(worst as int),
            worst <= MAX_GREED,
        decreases q.terms.len() - k,
    {
        assert(q@.terms[k as int] == q.terms@[k as int]@);
        match rank_term(o, &hay, &q.terms[k], &dists[k], Ghost(e@), Ghost(greed)) {
            Some(v) => {
                proof {
                    lemma_term_rank_bound(o, e@, q.terms@[k as int]@, greed);
                }
                if v > worst {
                    worst = v;
                }
            },
            None => {
                proof {
                    lemma_terms_rank_none(o, q@.terms, e@, greed, k as int + 1);
                }
                return None;
            },
        }
        k += 1;
    }
    Some(worst)
}

/// Searches a list of entries with a parsed query.
pub fn search_parsed(o: &Ontology, q: &ParsedQuery, entries: &Vec<LogEntry>, greed: u8) -> (r: Vec<
    LogEntry,
>)
    requires
        o.wf(),
        greed <= MAX_GREED,
    ensures
        entries_view(r@) == ranked(o, q@, entries_view(entries@), greed as int),
{
    let ghost g = greed as int;
    let ghost es = entries_view(entries@);
    let mut dists: Vec<Vec<u8>> = Vec::new();
    let mut k: usize = 0;
    while k < q.terms.len()
        invariant
            k <= q.terms@.len(),
            o.wf(),
            g == greed as int,
            dists@.len() == k,
            forall|j: int|
                0 <= j < k ==> (#[trigger] dists@[j])@.len() == o.terms@.len() && forall|i: int|
                    0 <= i < o.terms@.len() ==> dists@[j]@[i] as int == term_distance(
                        o,
                        q.terms@[j]@,
                        i,
                        g,
                    ),
        decreases q.terms.len() - k,
    {
        dists.push(expand(o, &q.terms[k], greed));
        k += 1;
    }
    let mut ranks: Vec<Option<u8>> = Vec::new();
    let mut i: usize = 0;
    while i < entries.len()
        invariant
            i <= entries.len(),
            0 <= g <= MAX_GREED,
            es == entries_view(entries@),
            ranks@.len() == i,
            dists@.len() == q.terms@.len(),
            forall|j: int|
                0 <= j < dists@.len() ==> (#[trigger] dists@[j])@.len() == o.terms@.len()
                    && forall|i: int|
                    0 <= i < o.terms@.len() ==> dists@[j]@[i] as int == term_distance(
                        o,
                        q.terms@[j]@,
                        i,
                        g,
                    ),
            forall|j: int|
                0 <= j < i ==> match #[trigger] ranks@[j] {
                    Some(v) => entry_rank(o, q@, es[j], g) == Some(v as int),
                    None => entry_rank(o, q@, es[j], g) is None,
                },
        decreases entries.len() - i,
    {
        ranks.push(rank_entry(o, q, &dists, &entries[i], Ghost(g)));
        i += 1;
    }
    let mut out: Vec<LogEntry> = Vec::new();
    let mut s: u8 = 0;
    assert(entries_view(out@) =~= ranked_upto(o, q@, es, g, -1));
    while s <= REGEX_RANK
        invariant
            s <= REGEX_RANK + 1,
            es == entries_view(entries@),
            ranks@.len() == entries@.len(),
            forall|j: int|
                0 <= j < ranks@.len() ==> match #[trigger] ranks@[j] {
                    Some(v) => entry_rank(o, q@, es[j], g) == Some(v as int),
                    None => entry_rank(o, q@, es[j], g) is None,
                },
            entries_view(out@) == ranked_upto(o, q@, es, g, s - 1),
        decreases REGEX_RANK + 1 - s,
    {
        let ghost base = entries_view(out@);
        let mut j: usize = entries.len();
        assert(es.skip(j as int) =~= Seq::<EntryView>::empty());
        assert(base + bucket(o, q@, es.skip(j as int), g, s as int) =~= base);
        while j > 0
            invariant
                j <= entries.len(),
                es == entries_view(entries@),
                ranks@.len() == entries@.len(),
                forall|k: int|
                    0 <= k < ranks@.len() ==> match #[trigger] ranks@[k] {
                        Some(v) => entry_rank(o, q@, es[k], g) == Some(v as int),
                        None => entry_rank(o, q@, es[k], g) is None,
                    },
                entries_view(out@) == base + bucket(o, q@, es.skip(j as int), g, s as int),
            decreases j,
        {
            j -= 1;
            let ghost before = entries_view(out@);
            proof {
                assert(es.skip(j as int).drop_first() =~= es.skip(j + 1));
                assert(es.skip(j as int).first() == es[j as int]);
            }
            let hit: bool = match ranks[j] {
                Some(v) => v == s,
                None => false,
            };
            if hit {
                out.push(entries[j].duplicate());
                assert(entries_view(out@) =~= before.push(es[j as int]));
                assert(base + bucket(o, q@, es.skip(j + 1), g, s as int).push(es[j as int])
                    =~= before.push(es[j as int]));
            }
        }
        assert(es.skip(0) =~= es);
        s += 1;
    }
    out
}

/// The content of a search result.
pub open spec fn result_view(r: Result<Vec<LogEntry>, QueryError>) -> Result<
    Seq<EntryView>,
    QueryErrorView,
> {
    match r {
        Ok(v) => Ok(entries_view(v@)),
        Err(e) => Err(e@),
    }
}

/// What a search gives: the error of a query that is refused, else the
/// ranked entries that meet the query.
pub open spec fn search_spec(o: &Ontology, es: Seq<EntryView>, query: Seq<char>, greed: int) -> Result<
    Seq<EntryView>,
    QueryErrorView,
> {
    match parse_query_spec(query) {
        Ok(q) => Ok(ranked(o, q, es, greed)),
        Err(e) => Err(e),
    }
}

/// Searches a list of entries: parses the query and ranks the entries that
/// meet it at the given greed, from 0 to 10.
pub fn search(o: &Ontology, entries: &Vec<LogEntry>, query: &str, greed: u8) -> (r: Result<
    Vec<LogEntry>,
    QueryError,
>)
    requires
        o.wf(),
        greed <= MAX_GREED,
    ensures
        result_view(r) == search_spec(o, entries_view(entries@), query@, greed as int),
{
    match parse_query(query) {
        Ok(q) => Ok(search_parsed(o, &q, entries, greed)),
        Err(e) => Err(e),
    }
}

/// The first `cap` results of a search.
pub fn search_capped(
    o: &Ontology,
    entries: &Vec<LogEntry>,
    query: &str,
    greed: u8,
    cap: usize,
) -> (r: Result<Vec<LogEntry>, QueryError>)
    requires
        o.wf(),
        greed <= MAX_GREED,
    ensures
        match search_spec(o, entries_view(entries@), query@, greed as int) {
            Ok(all) => r is Ok && entries_view(r->Ok_0@) == if cap < all.len() {
                all.take(cap as int)
            } else {
                all
            },
            Err(e) => r is Err && r->Err_0@ == e,
        },
{
    match search(o, entries, query, greed) {
        Ok(mut all) => {
            let ghost whole = entries_view(all@);
            if cap < all.len() {
                all.truncate(cap);
                assert(entries_view(all@) =~= whole.take(cap as int));
            }
            Ok(all)
        },
        Err(e) => Err(e),
    }
}

/// The entries of `es` that meet the query, in the order of `es`.
pub open spec fn matching(o: &Ontology, q: QueryView, es: Seq<EntryView>, greed: int) -> Seq<
    EntryView,
>
    decreases es.len(),
{
    if es.len() == 0 {
        Seq::empty()
    } else if entry_rank(o, q, es.last(), greed) is Some {
        matching(o, q, es.drop_last(), greed).push(es.last())
    } else {
        matching(o, q, es.drop_last(), greed)
    }
}

/// Copies the entries that meet a parsed query, in their order.
pub fn filter_parsed(o: &Ontology, q: &ParsedQuery, entries: &Vec<LogEntry>, greed: u8) -> (r: Vec<
    LogEntry,
>)
    requires
        o.wf(),
        greed <= MAX_GREED,
    ensures
        entries_view(r@) == matching(o, q@, entries_view(entries@), greed as int),
{
    let ghost g = greed as int;
    let ghost es = entries_view(entries@);
    let mut dists: Vec<Vec<u8>> = Vec::new();
    let mut k: usize = 0;
    while k < q.terms.len()
        invariant
            k <= q.terms@.len(),
            o.wf(),
            g == greed as int,
            dists@.len() == k,
            forall|j: int|
                0 <= j < k ==> (#[trigger] dists@[j])@.len() == o.terms@.len() && forall|i: int|
                    0 <= i < o.terms@.len() ==> dists@[j]@[i] as int == term_distance(
                        o,
                        q.terms@[j]@,
                        i,
                        g,
                    ),
        decreases q.terms.len() - k,
    {
        dists.push(expand(o, &q.terms[k], greed));
        k += 1;
    }
    let mut out: Vec<LogEntry> = Vec::new();
    let mut i: usize = 0;
    assert(es.take(0) =~= Seq::<EntryView>::empty());
    assert(entries_view(out@) =~= Seq::<EntryView>::empty());
    while i < entries.len()
        invariant
            i <= entries.len(),
            0 <= g <= MAX_GREED,
            es == entries_view(entries@),
            dists@.len() == q.terms@.len(),
            forall|j: int|
                0 <= j < dists@.len() ==> (#[trigger] dists@[j])@.len() == o.terms@.len()
                    && forall|i: int|
                    0 <= i < o.terms@.len() ==> dists@[j]@[i] as int == term_distance(
                        o,
                        q.terms@[j]@,
                        i,
                        g,
                    ),
            entries_view(out@) == matching(o, q@, es.take(i as int), g),
        decreases entries.len() - i,
    {
        assert(es.take(i + 1).drop_last() =~= es.take(i as int));
        assert(es.take(i + 1).last() == entries@[i as int]@);
        if rank_entry(o, q, &dists, &entries[i], Ghost(g)).is_some() {
            let ghost before = entries_view(out@);
            out.push(entries[i].duplicate());
            assert(entries_view(out@) =~= before.push(entries@[i as int]@));
        }
        i += 1;
    }
    assert(es.take(es.len() as int) =~= es);
    out
}

/// The number of results that a search engine gives at most, unless it is
/// told another.
pub const DEFAULT_CAP: usize = 10_000;

/// A search engine: the built-in ontology and a cap on the number of
/// results.
pub struct SearchEngine {
    ontology: Ontology,
    cap: usize,
}

impl SearchEngine {
    #[verifier::type_invariant]
    spec fn inv(self) -> bool {
        self.ontology.wf()
    }

    /// The ontology over which the engine expands terms.
    pub closed spec fn ontology(&self) -> &Ontology {
        &self.ontology
    }

    /// The largest number of results that the engine gives.
    pub closed spec fn cap(&self) -> usize {
        self.cap
    }

    /// The greed that the engine searches with: the one asked for, held to
    /// 10.
    pub open spec fn held(greed: u8) -> int {
        if greed <= MAX_GREED {
            greed as int
        } else {
            MAX_GREED as int
        }
    }

    /// An engine over the built-in ontology that gives up to 10,000 results.
    pub fn new() -> (r: SearchEngine)
        ensures
            r.cap() == DEFAULT_CAP,
            r.ontology().wf(),
            r.ontology()@ == builtin_model(),
    {
        SearchEngine { ontology: Ontology::builtin(), cap: DEFAULT_CAP }
    }

    /// An engine over the built-in ontology that gives up to `cap` results.
    pub fn with_cap(cap: usize) -> (r: SearchEngine)
        ensures
            r.cap() == cap,
            r.ontology().wf(),
            r.ontology()@ == builtin_model(),
    {
        SearchEngine { ontology: Ontology::builtin(), cap }
    }

    /// Searches a list of entries and gives the best results, up to the
    /// cap. A greed above 10 counts as 10.
    pub fn search(&self, entries: &Vec<LogEntry>, query: &str, greed: u8) -> (r: Result<
        Vec<LogEntry>,
        QueryError,
    >)
        ensures
            match search_spec(
                self.ontology(),
                entries_view(entries@),
                query@,
                SearchEngine::held(greed),
            ) {
                Ok(all) => r is Ok && entries_view(r->Ok_0@) == if self.cap() < all.len() {
                    all.take(self.cap() as int)
                } else {
                    all
                },
                Err(e) => r is Err && r->Err_0@ == e,
            },
    {
        proof {
            use_type_invariant(self);
        }
        let g: u8 = if greed <= MAX_GREED {
            greed
        } else {
            MAX_GREED
        };
        search_capped(&self.ontology, entries, query, g, self.cap)
    }

    /// Searches a list of entries and gives every result. A greed above 10
    /// counts as 10.
    pub fn search_all(&self, entries: &Vec<LogEntry>, query: &str, greed: u8) -> (r: Result<
        Vec<LogEntry>,
        QueryError,
    >)
        ensures
            result_view(r) == search_spec(
                self.ontology(),
                entries_view(entries@),
                query@,
                SearchEngine::held(greed),
            ),
    {
        proof {
            use_type_invariant(self);
        }
        let g: u8 = if greed <= MAX_GREED {
            greed
        } else {
            MAX_GREED
        };
        search(&self.ontology, entries, query, g)
    }
}

// ---------------------------------------------------------------------------
// Laws
// ---------------------------------------------------------------------------

/// The least distance found among the first `k` terms is positive exactly
/// if one of them belongs to the expansion and occurs in the entry, and it
/// never exceeds the greed.
pub proof fn lemma_best_upto(o: &Ontology, e: EntryView, t: Seq<char>, greed: int, k: int)
    requires
        0 <= k <= o.terms@.len(),
        0 <= greed,
    ensures
        0 <= best_upto(o, e, t, greed, k) <= greed,
        best_upto(o, e, t, greed, k) > 0 <==> exists|i: int|
            0 <= i < k && #[trigger] in_expansion(o, t, i, greed) && entry_has(e, o.terms@[i]@),
    decreases k,
{
    if k > 0 {
        lemma_best_upto(o, e, t, greed, k - 1);
        lemma_distance_expansion(o, t, k - 1, greed);
        lemma_graph_distance(o, t, k - 1, greed);
        if best_upto(o, e, t, greed, k) > 0 {
            if best_upto(o, e, t, greed, k - 1) > 0 {
                let i = choose|i: int|
                    0 <= i < k - 1 && #[trigger] in_expansion(o, t, i, greed) && entry_has(
                        e,
                        o.terms@[i]@,
                    );
                assert(0 <= i < k && in_expansion(o, t, i, greed));
            } else {
                assert(in_expansion(o, t, k - 1, greed));
            }
        }
        if exists|i: int|
            0 <= i < k && #[trigger] in_expansion(o, t, i, greed) && entry_has(e, o.terms@[i]@) {
            let i = choose|i: int|
                0 <= i < k && #[trigger] in_expansion(o, t, i, greed) && entry_has(e, o.terms@[i]@);
            if i < k - 1 {
                assert(best_upto(o, e, t, greed, k - 1) > 0);
            }
        }
    }
}

/// An entry has a rank for a term exactly if it meets the term.
pub proof fn lemma_term_rank_hit(o: &Ontology, e: EntryView, t: Seq<char>, greed: int)
    requires
        0 <= greed,
    ensures
        term_rank(o, e, t, greed) is Some <==> term_hit(o, e, t, greed),
{
    lemma_best_upto(o, e, t, greed, o.terms@.len() as int);
    if term_hit(o, e, t, greed) && !entry_has(e, t) {
        let i = choose|i: int| #[trigger] in_expansion(o, t, i, greed) && entry_has(e, o.terms@[i]@);
        assert(0 <= i < o.terms@.len());
    }
}

/// The rank for a term lies between 0 and the greed.
pub proof fn lemma_term_rank_bound(o: &Ontology, e: EntryView, t: Seq<char>, greed: int)
    requires
        0 <= greed,
    ensures
        term_rank(o, e, t, greed) is Some ==> 0 <= term_rank(o, e, t, greed)->0 <= greed,
{
    lemma_best_upto(o, e, t, greed, o.terms@.len() as int);
}

/// Once a term fails, the rank over the terms is `None` from there on.
pub proof fn lemma_terms_rank_none(
    o: &Ontology,
    terms: Seq<Seq<char>>,
    e: EntryView,
    greed: int,
    k: int,
)
    requires
        1 <= k <= terms.len(),
        terms_rank(o, terms, e, greed, k) is None,
    ensures
        terms_rank(o, terms, e, greed, terms.len() as int) is None,
    decreases terms.len() - k,
{
    if k < terms.len() {
        lemma_terms_rank_none_step(o, terms, e, greed, k, terms.len() as int);
    }
}

/// A rank that is `None` at `k` is `None` at every later position.
pub proof fn lemma_terms_rank_none_step(
    o: &Ontology,
    terms: Seq<Seq<char>>,
    e: EntryView,
    greed: int,
    k: int,
    m: int,
)
    requires
        0 <= k <= m,
        terms_rank(o, terms, e, greed, k) is None,
    ensures
        terms_rank(o, terms, e, greed, m) is None,
    decreases m - k,
{
    if k < m {
        lemma_terms_rank_none_step(o, terms, e, greed, k, m - 1);
    }
}

/// The rank over the first `k` terms is known exactly if the entry meets
/// each of them, and then it lies between 0 and the greed.
pub proof fn lemma_terms_rank(o: &Ontology, terms: Seq<Seq<char>>, e: EntryView, greed: int, k: int)
    requires
        0 <= k <= terms.len(),
        0 <= greed,
    ensures
        terms_rank(o, terms, e, greed, k) is Some <==> forall|j: int|
            0 <= j < k ==> term_hit(o, e, #[trigger] terms[j], greed),
        terms_rank(o, terms, e, greed, k) is Some ==> 0 <= terms_rank(o, terms, e, greed, k)->0
            <= greed,
    decreases k,
{
    if k > 0 {
        lemma_terms_rank(o, terms, e, greed, k - 1);
        lemma_term_rank_hit(o, e, terms[k - 1], greed);
        lemma_term_rank_bound(o, e, terms[k - 1], greed);
        if terms_rank(o, terms, e, greed, k) is Some {
            assert forall|j: int| 0 <= j < k implies term_hit(o, e, #[trigger] terms[j], greed) by {
                if j < k - 1 {
                } else {
                    assert(term_hit(o, e, terms[k - 1], greed));
                }
            }
        }
    }
}

/// An entry has a rank exactly if it meets the query, and the rank lies
/// between 0 and 11.
pub proof fn lemma_entry_rank(o: &Ontology, q: QueryView, e: EntryView, greed: int)
    requires
        0 <= greed <= MAX_GREED,
    ensures
        entry_rank(o, q, e, greed) is Some <==> meets(o, q, e, greed),
        entry_rank(o, q, e, greed) is Some ==> 0 <= entry_rank(o, q, e, greed)->0 <= REGEX_RANK,
{
    lemma_terms_rank(o, q.terms, e, greed, q.terms.len() as int);
}

/// A bucket holds the entries of the input that have its rank, and no
/// others.
pub proof fn lemma_bucket_members(
    o: &Ontology,
    q: QueryView,
    es: Seq<EntryView>,
    greed: int,
    s: int,
    e: EntryView,
)
    ensures
        bucket(o, q, es, greed, s).contains(e) <==> es.contains(e) && entry_rank(o, q, e, greed)
            == Some(s),
    decreases es.len(),
{
    if es.len() > 0 {
        let rest = bucket(o, q, es.drop_first(), greed, s);
        lemma_bucket_members(o, q, es.drop_first(), greed, s, e);
        if bucket(o, q, es, greed, s).contains(e) {
            let b = bucket(o, q, es, greed, s);
            let i = choose|i: int| 0 <= i < b.len() && b[i] == e;
            if i < rest.len() {
                assert(rest[i] == e);
                assert(rest.contains(e));
                let w = choose|w: int|
                    0 <= w < es.drop_first().len() && es.drop_first()[w] == e;
                assert(es[w + 1] == e);
            } else {
                assert(es[0] == e);
            }
        }
        if es.contains(e) && entry_rank(o, q, e, greed) == Some(s) {
            let w = choose|w: int| 0 <= w < es.len() && es[w] == e;
            let b = bucket(o, q, es, greed, s);
            if w == 0 {
                assert(b[b.len() - 1] == e);
            } else {
                assert(es.drop_first()[w - 1] == e);
                assert(rest.contains(e));
                let i = choose|i: int| 0 <= i < rest.len() && rest[i] == e;
                assert(b[i] == e);
            }
        }
    }
}

/// The entries ranked up to `s` are the entries of the input whose rank is
/// from 0 to `s`.
pub proof fn lemma_ranked_members(
    o: &Ontology,
    q: QueryView,
    es: Seq<EntryView>,
    greed: int,
    s: int,
    e: EntryView,
)
    ensures
        ranked_upto(o, q, es, greed, s).contains(e) <==> es.contains(e) && entry_rank(
            o,
            q,
            e,
            greed,
        ) is Some && 0 <= entry_rank(o, q, e, greed)->0 <= s,
    decreases s + 1,
{
    if s >= 0 {
        let head = ranked_upto(o, q, es, greed, s - 1);
        let tail = bucket(o, q, es, greed, s);
        lemma_ranked_members(o, q, es, greed, s - 1, e);
        lemma_bucket_members(o, q, es, greed, s, e);
        if (head + tail).contains(e) {
            let i = choose|i: int| 0 <= i < (head + tail).len() && (head + tail)[i] == e;
            if i < head.len() {
                assert(head[i] == e);
            } else {
                assert(tail[i - head.len()] == e);
            }
        }
        if head.contains(e) {
            let i = choose|i: int| 0 <= i < head.len() && head[i] == e;
            assert((head + tail)[i] == e);
        }
        if tail.contains(e) {
            let i = choose|i: int| 0 <= i < tail.len() && tail[i] == e;
            assert((head + tail)[head.len() + i] == e);
        }
    }
}

/// The results of a search are the entries of the input that meet the
/// query.
pub proof fn law_results_are_matches(
    o: &Ontology,
    q: QueryView,
    es: Seq<EntryView>,
    greed: int,
    e: EntryView,
)
    requires
        0 <= greed <= MAX_GREED,
    ensures
        ranked(o, q, es, greed).contains(e) <==> es.contains(e) && meets(o, q, e, greed),
{
    lemma_ranked_members(o, q, es, greed, REGEX_RANK as int, e);
    lemma_entry_rank(o, q, e, greed);
}

/// Results subset: every entry that a search gives is an entry of the
/// input.
pub proof fn law_results_subset(o: &Ontology, q: QueryView, es: Seq<EntryView>, greed: int)
    requires
        0 <= greed <= MAX_GREED,
    ensures
        forall|i: int|
            0 <= i < ranked(o, q, es, greed).len() ==> es.contains(
                #[trigger] ranked(o, q, es, greed)[i],
            ),
{
    assert forall|i: int| 0 <= i < ranked(o, q, es, greed).len() implies es.contains(
        #[trigger] ranked(o, q, es, greed)[i],
    ) by {
        let e = ranked(o, q, es, greed)[i];
        assert(ranked(o, q, es, greed).contains(e));
        law_results_are_matches(o, q, es, greed, e);
    }
}

/// An entry that meets a query at a greed meets it at every higher greed.
pub proof fn lemma_meets_monotone(o: &Ontology, q: QueryView, e: EntryView, g: int, h: int)
    requires
        g <= h,
        meets(o, q, e, g),
    ensures
        meets(o, q, e, h),
{
    assert forall|k: int| 0 <= k < q.terms.len() implies term_hit(
        o,
        e,
        #[trigger] q.terms[k],
        h,
    ) by {
        let t = q.terms[k];
        assert(term_hit(o, e, t, g));
        if !entry_has(e, t) {
            let i = choose|i: int| #[trigger] in_expansion(o, t, i, g) && entry_has(e, o.terms@[i]@);
            law_expansion_monotone(o, t, i, g, h);
        }
    }
}

/// Greed monotonicity: every entry that a search gives at a greed `g` from
/// 0 to 9, it gives at greed `g + 1` as well.
pub proof fn law_greed_monotone(o: &Ontology, q: QueryView, es: Seq<EntryView>, g: int)
    requires
        0 <= g < MAX_GREED,
    ensures
        forall|i: int|
            0 <= i < ranked(o, q, es, g).len() ==> ranked(o, q, es, g + 1).contains(
                #[trigger] ranked(o, q, es, g)[i],
            ),
{
    assert forall|i: int| 0 <= i < ranked(o, q, es, g).len() implies ranked(
        o,
        q,
        es,
        g + 1,
    ).contains(#[trigger] ranked(o, q, es, g)[i]) by {
        let e = ranked(o, q, es, g)[i];
        assert(ranked(o, q, es, g).contains(e));
        law_results_are_matches(o, q, es, g, e);
        lemma_meets_monotone(o, q, e, g, g + 1);
        law_results_are_matches(o, q, es, g + 1, e);
    }
}

/// At greed 0 an entry meets a free term only if it holds the term itself.
pub proof fn law_greed_zero_is_literal(o: &Ontology, e: EntryView, t: Seq<char>)
    ensures
        term_hit(o, e, t, 0) <==> entry_has(e, t),
{
}

} // verus!
