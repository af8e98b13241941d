//! Query syntax.
//!
//! A query is a conjunction of tokens, set apart by white space:
//!
//! - `/regex/` is a regular expression;
//! - `key:value` is a filter: `level:error` asks for a level of at least
//!   `Error`, `producer:` and `source:` ask for that producer or kind of
//!   feed, and every other key asks for a field with that value;
//! - anything else is a free term, which greedy expansion widens.

use crate::search::pattern::{compile, regex_compiles, Pattern};
use crate::store::{Criterion, Filter};
use crate::text::{
    chars_are, chars_of, is_space, is_whitespace, lower, string_of, string_of_range, to_lower,
};
use crate::types::{level_named, source_named, FeedKind, LogLevel};
use vstd::prelude::*;
use vstd::string::StringExecFns;

verus! {

// ---------------------------------------------------------------------------
// Tokens
// ---------------------------------------------------------------------------

/// The tokens of a text: its longest runs of characters that are not white
/// space, in order.
pub open spec fn tokens(s: Seq<char>) -> Seq<Seq<char>>
    decreases s.len(),
{
    if s.len() == 0 {
        Seq::empty()
    } else {
        let init = tokens(s.drop_last());
        let c = s.last();
        if is_space(c) {
            init
        } else if s.len() >= 2 && !is_space(s[s.len() - 2]) && init.len() > 0 {
            init.update(init.len() - 1, init.last().push(c))
        } else {
            init.push(seq![c])
        }
    }
}

/// The contents of a list of character buffers.
pub open spec fn buffers_view(v: Seq<Vec<char>>) -> Seq<Seq<char>> {
    Seq::new(v.len(), |i: int| v[i]@)
}

/// Splits a text into its tokens.
pub fn split_tokens(v: &Vec<char>) -> (r: Vec<Vec<char>>)
    ensures
        buffers_view(r@) == tokens(v@),
{
    let mut r: Vec<Vec<char>> = Vec::new();
    let mut i: usize = 0;
    assert(v@.take(0) =~= Seq::<char>::empty());
    assert(buffers_view(r@) =~= Seq::<Seq<char>>::empty());
    while i < v.len()
        invariant
            i <= v.len(),
            buffers_view(r@) == tokens(v@.take(i as int)),
            i > 0 && !is_space(v@[i - 1]) ==> r@.len() > 0,
        decreases v.len() - i,
    {
        let c = v[i];
        let ghost before = buffers_view(r@);
        proof {
            assert(v@.take(i + 1).drop_last() =~= v@.take(i as int));
            assert(v@.take(i + 1).last() == c);
            if i > 0 {
                assert(v@.take(i + 1)[i - 1] == v@[i - 1]);
            }
        }
        if is_whitespace(c) {
        } else if i > 0 && !is_whitespace(v[i - 1]) {
            let last: usize = r.len() - 1;
            let mut token: Vec<char> = Vec::new();
            std::mem::swap(&mut token, &mut r[last]);
            token.push(c);
            r[last] = token;
            assert(buffers_view(r@) =~= before.update(before.len() - 1, before.last().push(c)));
        } else {
            let mut token: Vec<char> = Vec::new();
            token.push(c);
            r.push(token);
            assert(buffers_view(r@) =~= before.push(seq![c]));
        }
        i += 1;
    }
    assert(v@.take(v@.len() as int) =~= v@);
    r
}

// ---------------------------------------------------------------------------
// Token kinds
// ---------------------------------------------------------------------------

/// The offset of the first `c` in `s`; the length of `s` if it has none.
pub open spec fn find_char(s: Seq<char>, c: char) -> int
    decreases s.len(),
{
    if s.len() == 0 || s.first() == c {
        0
    } else {
        1 + find_char(s.drop_first(), c)
    }
}

/// Finds the first `c` in a buffer.
pub fn position_of(v: &Vec<char>, c: char) -> (r: usize)
    ensures
        r == find_char(v@, c),
        r <= v@.len(),
{
    let mut i: usize = 0;
    assert(v@.skip(0) =~= v@);
    while i < v.len() && v[i] != c
        invariant
            i <= v.len(),
            find_char(v@, c) == i + find_char(v@.skip(i as int), c),
        decreases v.len() - i,
    {
        assert(v@.skip(i as int).drop_first() =~= v@.skip(i + 1));
        i += 1;
    }
    assert(v@.skip(v@.len() as int) =~= Seq::<char>::empty());
    i
}

/// What a token is.
pub enum TokenKind {
    /// A regular expression, without its slashes.
    Regex(Seq<char>),
    /// A key and a value, without the colon between them.
    KeyValue(Seq<char>, Seq<char>),
    /// A free term, in lower case.
    Term(Seq<char>),
}

/// The kind of a token: a regular expression if it begins and ends with a
/// slash, a key and a value if it holds a colon, else a free term.
pub open spec fn classify(tok: Seq<char>) -> TokenKind {
    if tok.len() >= 2 && tok.first() == '/' && tok.last() == '/' {
        TokenKind::Regex(tok.subrange(1, tok.len() - 1))
    } else if find_char(tok, ':') < tok.len() {
        TokenKind::KeyValue(tok.take(find_char(tok, ':')), tok.skip(find_char(tok, ':') + 1))
    } else {
        TokenKind::Term(lower(tok))
    }
}

/// A character that a key may hold: lower-case letters, digits, `_`, `.`,
/// `-` and `@`.
pub open spec fn is_key_char(c: char) -> bool {
    ('a' <= c <= 'z') || ('0' <= c <= '9') || c == '_' || c == '.' || c == '-' || c == '@'
}

/// A key in lower case is valid if it is not empty and made of key
/// characters.
pub open spec fn valid_key(k: Seq<char>) -> bool {
    k.len() > 0 && forall|i: int| 0 <= i < k.len() ==> is_key_char(#[trigger] k[i])
}

/// Tells whether a key in lower case is valid.
pub fn check_key(k: &Vec<char>) -> (r: bool)
    ensures
        r == valid_key(k@),
{
    if k.len() == 0 {
        return false;
    }
    let mut i: usize = 0;
    while i < k.len()
        invariant
            i <= k.len(),
            forall|j: int| 0 <= j < i ==> is_key_char(#[trigger] k@[j]),
        decreases k.len() - i,
    {
        let c = k[i];
        let ok: bool = ('a' <= c && c <= 'z') || ('0' <= c && c <= '9') || c == '_' || c == '.'
            || c == '-' || c == '@';
        if !ok {
            return false;
        }
        i += 1;
    }
    true
}

// ---------------------------------------------------------------------------
// Errors
// ---------------------------------------------------------------------------

/// Why a query was refused.
#[derive(Debug, Clone, PartialEq, Eq)]
pub enum QueryError {
    /// The key of a filter is empty or holds a character that no key has.
    UnknownKey(String),
    /// The value of a `level:` filter names no level.
    UnknownLevel(String),
    /// The value of a `source:` filter names no kind of feed.
    UnknownSource(String),
    /// The text between the slashes is no regular expression.
    BadRegex(String),
}

/// The mathematical content of a [`QueryError`].
pub enum QueryErrorView {
    UnknownKey(Seq<char>),
    UnknownLevel(Seq<char>),
    UnknownSource(Seq<char>),
    BadRegex(Seq<char>),
}

impl View for QueryError {
    type V = QueryErrorView;

    open spec fn view(&self) -> QueryErrorView {
        match self {
            QueryError::UnknownKey(s) => QueryErrorView::UnknownKey(s@),
            QueryError::UnknownLevel(s) => QueryErrorView::UnknownLevel(s@),
            QueryError::UnknownSource(s) => QueryErrorView::UnknownSource(s@),
            QueryError::BadRegex(s) => QueryErrorView::BadRegex(s@),
        }
    }
}

impl QueryErrorView {
    /// The diagnostic shown to the user.
    pub open spec fn message(self) -> Seq<char> {
        match self {
            QueryErrorView::UnknownKey(s) => "unknown key: "@ + s,
            QueryErrorView::UnknownLevel(s) => "unknown level: "@ + s,
            QueryErrorView::UnknownSource(s) => "unknown source: "@ + s,
            QueryErrorView::BadRegex(s) => "malformed regex: "@ + s,
        }
    }
}

impl QueryError {
    /// The diagnostic shown to the user.
    pub fn message(&self) -> (r: String)
        ensures
            r@ == self@.message(),
    {
        match self {
            QueryError::UnknownKey(s) => "unknown key: ".to_owned().concat(s.as_str()),
            QueryError::UnknownLevel(s) => "unknown level: ".to_owned().concat(s.as_str()),
            QueryError::UnknownSource(s) => "unknown source: ".to_owned().concat(s.as_str()),
            QueryError::BadRegex(s) => "malformed regex: ".to_owned().concat(s.as_str()),
        }
    }
}

// ---------------------------------------------------------------------------
// Filters
// ---------------------------------------------------------------------------

/// The filter that a key and a value stand for.
///
/// The key is taken in lower case. `level` asks for a level name and gives
/// "at least that level"; `source` asks for the name of a kind of feed;
/// `producer` takes the value as it is; any other valid key asks for a field
/// of that name whose text is the value.
pub open spec fn filter_of(key: Seq<char>, value: Seq<char>) -> Result<Criterion, QueryErrorView> {
    let k = lower(key);
    if !valid_key(k) {
        Err(QueryErrorView::UnknownKey(key))
    } else if k == "level"@ {
        match level_named(lower(value)) {
            Some(l) => Ok(Criterion::LevelAtLeast(l)),
            None => Err(QueryErrorView::UnknownLevel(value)),
        }
    } else if k == "source"@ {
        match source_named(lower(value)) {
            Some(s) => Ok(Criterion::Source(s)),
            None => Err(QueryErrorView::UnknownSource(value)),
        }
    } else if k == "producer"@ {
        Ok(Criterion::Producer(value))
    } else {
        Ok(Criterion::Field(k, value))
    }
}

/// The content of a filter result.
pub open spec fn filter_result_view(r: Result<Filter, QueryError>) -> Result<
    Criterion,
    QueryErrorView,
> {
    match r {
        Ok(f) => Ok(f@),
        Err(e) => Err(e@),
    }
}

/// Builds the filter that a key and a value stand for.
pub fn make_filter(key: &Vec<char>, value: &Vec<char>) -> (r: Result<Filter, QueryError>)
    ensures
        filter_result_view(r) == filter_of(key@, value@),
{
    let k = to_lower(key);
    if !check_key(&k) {
        return Err(QueryError::UnknownKey(string_of(key)));
    }
    if chars_are(&k, "level") {
        match LogLevel::from_name(&to_lower(value)) {
            Some(l) => Ok(Filter::LevelAtLeast(l)),
            None => Err(QueryError::UnknownLevel(string_of(value))),
        }
    } else if chars_are(&k, "source") {
        match FeedKind::from_name(&to_lower(value)) {
            Some(s) => Ok(Filter::Source(s)),
            None => Err(QueryError::UnknownSource(string_of(value))),
        }
    } else if chars_are(&k, "producer") {
        Ok(Filter::Producer(string_of(value)))
    } else {
        Ok(Filter::Field(string_of(&k), string_of(value)))
    }
}

// ---------------------------------------------------------------------------
// Parsed queries
// ---------------------------------------------------------------------------

/// A parsed query: its filters, its free terms in lower case, and its
/// regular expressions, each in the order of the query.
pub struct ParsedQuery {
    pub filters: Vec<Filter>,
    pub terms: Vec<Vec<char>>,
    pub regexes: Vec<Pattern>,
}

/// The mathematical content of a [`ParsedQuery`].
pub struct QueryView {
    pub filters: Seq<Criterion>,
    pub terms: Seq<Seq<char>>,
    pub regexes: Seq<Seq<char>>,
}

/// The contents of a list of filters.
pub open spec fn filters_view(v: Seq<Filter>) -> Seq<Criterion> {
    Seq::new(v.len(), |i: int| v[i]@)
}

/// The sources of a list of patterns.
pub open spec fn sources_view(v: Seq<Pattern>) -> Seq<Seq<char>> {
    Seq::new(v.len(), |i: int| v[i].source())
}

impl View for ParsedQuery {
    type V = QueryView;

    open spec fn view(&self) -> QueryView {
        QueryView {
            filters: filters_view(self.filters@),
            terms: buffers_view(self.terms@),
            regexes: sources_view(self.regexes@),
        }
    }
}

impl QueryView {
    /// The query without tokens, which every entry meets.
    pub open spec fn empty() -> QueryView {
        QueryView { filters: Seq::empty(), terms: Seq::empty(), regexes: Seq::empty() }
    }
}

/// The query that a list of tokens stands for, or the error of the first
/// token that is refused.
pub open spec fn parse_tokens(toks: Seq<Seq<char>>) -> Result<QueryView, QueryErrorView>
    decreases toks.len(),
{
    if toks.len() == 0 {
        Ok(QueryView::empty())
    } else {
        match parse_tokens(toks.drop_last()) {
            Err(e) => Err(e),
            Ok(q) => match classify(toks.last()) {
                TokenKind::Term(t) => Ok(QueryView { terms: q.terms.push(t), ..q }),
                TokenKind::Regex(p) => if regex_compiles(p) {
                    Ok(QueryView { regexes: q.regexes.push(p), ..q })
                } else {
                    Err(QueryErrorView::BadRegex(p))
                },
                TokenKind::KeyValue(k, v) => match filter_of(k, v) {
                    Ok(c) => Ok(QueryView { filters: q.filters.push(c), ..q }),
                    Err(e) => Err(e),
                },
            },
        }
    }
}

/// What a query text means.
pub open spec fn parse_query_spec(input: Seq<char>) -> Result<QueryView, QueryErrorView> {
    parse_tokens(tokens(input))
}

/// The content of a parse result.
pub open spec fn parsed_query_view(r: Result<ParsedQuery, QueryError>) -> Result<
    QueryView,
    QueryErrorView,
> {
    match r {
        Ok(q) => Ok(q@),
        Err(e) => Err(e@),
    }
}

/// Parses a query.
///
/// A query whose every token is well formed is always accepted. The first
/// token that is refused decides the error: a filter with a key that is no
/// key or with a level or source that does not exist, or a regular
/// expression that does not compile.
pub fn parse_query(input: &str) -> (r: Result<ParsedQuery, QueryError>)
    ensures
        parsed_query_view(r) == parse_query_spec(input@),
{
    let v = chars_of(input);
    let toks = split_tokens(&v);
    let mut q = ParsedQuery { filters: Vec::new(), terms: Vec::new(), regexes: Vec::new() };
    let ghost all = tokens(input@);
    let mut i: usize = 0;
    proof {
        assert(all.take(0) =~= Seq::<Seq<char>>::empty());
        assert(q@.filters =~= Seq::<Criterion>::empty());
        assert(q@.terms =~= Seq::<Seq<char>>::empty());
        assert(q@.regexes =~= Seq::<Seq<char>>::empty());
    }
    while i < toks.len()
        invariant
            i <= toks.len(),
            all == buffers_view(toks@),
            all == tokens(input@),
            parse_tokens(all.take(i as int)) == Ok::<QueryView, QueryErrorView>(q@),
        decreases toks.len() - i,
    {
        let tok = &toks[i];
        let ghost before = q@;
        proof {
            assert(all.take(i + 1).drop_last() =~= all.take(i as int));
            assert(all.take(i + 1).last() == tok@);
            assert(all.take(toks@.len() as int) =~= all);
        }
        let n: usize = tok.len();
        if n >= 2 && tok[0] == '/' && tok[n - 1] == '/' {
            let source = string_of_range(tok, 1, n - 1);
            match compile(source.as_str()) {
                Some(p) => {
                    q.regexes.push(p);
                    assert(q@.regexes =~= before.regexes.push(source@));
                    assert(q@.filters =~= before.filters);
                    assert(q@.terms =~= before.terms);
                },
                None => {
                    proof {
                        lemma_first_error(all, i as int);
                    }
                    return Err(QueryError::BadRegex(source));
                },
            }
        } else {
            let colon: usize = position_of(tok, ':');
            if colon < n {
                let mut key: Vec<char> = Vec::new();
                let mut value: Vec<char> = Vec::new();
                let mut j: usize = 0;
                while j < n
                    invariant
                        j <= n,
                        n == tok@.len(),
                        colon < n,
                        key@ == tok@.take(if j <= colon {
                            j as int
                        } else {
                            colon as int
                        }),
                        value@ == tok@.subrange(colon + 1, if j <= colon {
                            colon + 1
                        } else {
                            j as int
                        }),
                    decreases n - j,
                {
                    if j < colon {
                        key.push(tok[j]);
                        assert(key@ =~= tok@.take(j + 1));
                    } else if j > colon {
                        value.push(tok[j]);
                        assert(value@ =~= tok@.subrange(colon + 1, j + 1));
                    }
                    j += 1;
                }
                assert(value@ =~= tok@.skip(colon + 1));
                match make_filter(&key, &value) {
                    Ok(f) => {
                        q.filters.push(f);
                        assert(q@.filters =~= before.filters.push(f@));
                        assert(q@.regexes =~= before.regexes);
                        assert(q@.terms =~= before.terms);
                    },
                    Err(e) => {
                        proof {
                            lemma_first_error(all, i as int);
                        }
                        return Err(e);
                    },
                }
            } else {
                let t = to_lower(tok);
                q.terms.push(t);
                assert(q@.terms =~= before.terms.push(lower(tok@)));
                assert(q@.filters =~= before.filters);
                assert(q@.regexes =~= before.regexes);
            }
        }
        i += 1;
    }
    assert(all.take(all.len() as int) =~= all);
    Ok(q)
}

/// Once a prefix of the tokens is refused, every longer list is refused for
/// the same reason.
pub proof fn lemma_first_error(toks: Seq<Seq<char>>, i: int)
    requires
        0 <= i < toks.len(),
        parse_tokens(toks.take(i + 1)) is Err,
    ensures
        parse_tokens(toks) == parse_tokens(toks.take(i + 1)),
    decreases toks.len(),
{
    if i + 1 < toks.len() {
        assert(toks.drop_last().take(i + 1) =~= toks.take(i + 1));
        lemma_first_error(toks.drop_last(), i);
    } else {
        assert(toks.take(i + 1) =~= toks);
    }
}

} // verus!
