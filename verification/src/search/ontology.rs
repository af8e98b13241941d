//! The term ontology: a directed weighted graph of log-domain terms.
//!
//! An edge from `a` to `b` with weight `w` means that a search for `a`
//! reaches `b` at greed `w` and above. Every link is entered in both
//! directions, with weights that may differ, so whatever is reached can reach
//! back at the highest greed at the latest.

use crate::text::{chars_of, same_chars};
use vstd::prelude::*;

verus! {

/// The highest greed level, and the largest weight of an edge.
pub const MAX_GREED: u8 = 10;

/// One directed edge between two terms, given by their positions.
#[derive(Debug, Clone, Copy, PartialEq, Eq, Structural)]
pub struct Edge {
    pub from: usize,
    pub to: usize,
    pub weight: u8,
}

/// The families into which the terms are grouped.
#[derive(Debug, Clone, Copy, PartialEq, Eq, Structural)]
pub enum Family {
    Auth,
    Error,
    Network,
    Database,
    Performance,
    Lifecycle,
    Resource,
}

/// The ontology: terms in lower case, the family of each, and the edges.
#[derive(Debug)]
pub struct Ontology {
    pub terms: Vec<Vec<char>>,
    pub families: Vec<Family>,
    pub edges: Vec<Edge>,
}

/// The mathematical content of an [`Ontology`].
pub struct OntologyView {
    pub terms: Seq<Seq<char>>,
    pub families: Seq<Family>,
    pub edges: Seq<Edge>,
}

impl View for Ontology {
    type V = OntologyView;

    open spec fn view(&self) -> OntologyView {
        OntologyView {
            terms: Seq::new(self.terms@.len(), |i: int| self.terms@[i]@),
            families: self.families@,
            edges: self.edges@,
        }
    }
}

/// One link of two terms: the terms with their families, the weight of the
/// edge from `a` to `b`, and the weight of the edge back.
#[derive(Debug, Clone, Copy)]
pub struct Link {
    pub a: &'static str,
    pub family_a: Family,
    pub b: &'static str,
    pub family_b: Family,
    pub forth: u8,
    pub back: u8,
}

/// The mathematical content of a [`Link`].
pub struct LinkView {
    pub a: Seq<char>,
    pub family_a: Family,
    pub b: Seq<char>,
    pub family_b: Family,
    pub forth: u8,
    pub back: u8,
}

impl View for Link {
    type V = LinkView;

    open spec fn view(&self) -> LinkView {
        LinkView {
            a: self.a@,
            family_a: self.family_a,
            b: self.b@,
            family_b: self.family_b,
            forth: self.forth,
            back: self.back,
        }
    }
}

impl OntologyView {
    /// The ontology without terms.
    pub open spec fn empty() -> OntologyView {
        OntologyView { terms: Seq::empty(), families: Seq::empty(), edges: Seq::empty() }
    }

    /// The position of a term that the ontology has.
    pub open spec fn place(self, term: Seq<char>) -> int {
        choose|i: int| 0 <= i < self.terms.len() && self.terms[i] == term
    }

    /// The ontology with the term: as it is if it has the term already,
    /// else with the term and its family behind the others.
    pub open spec fn with_term(self, term: Seq<char>, family: Family) -> OntologyView {
        if self.terms.contains(term) {
            self
        } else {
            OntologyView {
                terms: self.terms.push(term),
                families: self.families.push(family),
                ..self
            }
        }
    }

    /// The ontology with two more edges: from `a` to `b` and back.
    pub open spec fn linked(self, a: int, b: int, forth: u8, back: u8) -> OntologyView {
        OntologyView {
            edges: self.edges.push(Edge { from: a as usize, to: b as usize, weight: forth }).push(
                Edge { from: b as usize, to: a as usize, weight: back },
            ),
            ..self
        }
    }

    /// The ontology with a link: both terms, where it lacked them, and the
    /// two edges between them.
    pub open spec fn connected(self, l: LinkView) -> OntologyView {
        let m = self.with_term(l.a, l.family_a).with_term(l.b, l.family_b);
        m.linked(m.place(l.a), m.place(l.b), l.forth, l.back)
    }
}

/// The number of links of the built-in ontology.
pub const LINK_COUNT: usize = 85;

/// The links of the built-in ontology, in the order in which they are
/// entered: the families around their hubs, then the bridges between the
/// families. Behind the last position stands the last link.
pub open spec fn builtin_link(k: int) -> LinkView {
    if k == 0 {
        LinkView { a: "auth"@, family_a: Family::Auth, b: "login"@, family_b: Family::Auth, forth: 3, back: 3 }
    } else if k == 1 {
        LinkView { a: "auth"@, family_a: Family::Auth, b: "credential"@, family_b: Family::Auth, forth: 3, back: 3 }
    } else if k == 2 {
        LinkView { a: "auth"@, family_a: Family::Auth, b: "session"@, family_b: Family::Auth, forth: 3, back: 4 }
    } else if k == 3 {
        LinkView { a: "auth"@, family_a: Family::Auth, b: "token"@, family_b: Family::Auth, forth: 3, back: 3 }
    } else if k == 4 {
        LinkView { a: "auth"@, family_a: Family::Auth, b: "password"@, family_b: Family::Auth, forth: 4, back: 4 }
    } else if k == 5 {
        LinkView { a: "auth"@, family_a: Family::Auth, b: "oauth"@, family_b: Family::Auth, forth: 5, back: 4 }
    } else if k == 6 {
        LinkView { a: "auth"@, family_a: Family::Auth, b: "sso"@, family_b: Family::Auth, forth: 6, back: 5 }
    } else if k == 7 {
        LinkView { a: "auth"@, family_a: Family::Auth, b: "permission"@, family_b: Family::Auth, forth: 7, back: 7 }
    } else if k == 8 {
        LinkView { a: "auth"@, family_a: Family::Auth, b: "principal"@, family_b: Family::Auth, forth: 7, back: 7 }
    } else if k == 9 {
        LinkView { a: "auth"@, family_a: Family::Auth, b: "unauthorized"@, family_b: Family::Auth, forth: 6, back: 5 }
    } else if k == 10 {
        LinkView { a: "auth"@, family_a: Family::Auth, b: "unauthenticated"@, family_b: Family::Auth, forth: 6, back: 5 }
    } else if k == 11 {
        LinkView { a: "token"@, family_a: Family::Auth, b: "invalid_token"@, family_b: Family::Auth, forth: 4, back: 4 }
    } else if k == 12 {
        LinkView { a: "denied"@, family_a: Family::Error, b: "forbidden"@, family_b: Family::Auth, forth: 3, back: 3 }
    } else if k == 13 {
        LinkView { a: "denied"@, family_a: Family::Error, b: "rejected"@, family_b: Family::Error, forth: 3, back: 3 }
    } else if k == 14 {
        LinkView { a: "denied"@, family_a: Family::Error, b: "unauthorized"@, family_b: Family::Auth, forth: 4, back: 4 }
    } else if k == 15 {
        LinkView { a: "denied"@, family_a: Family::Error, b: "unauthenticated"@, family_b: Family::Auth, forth: 4, back: 4 }
    } else if k == 16 {
        LinkView { a: "denied"@, family_a: Family::Error, b: "401"@, family_b: Family::Auth, forth: 5, back: 5 }
    } else if k == 17 {
        LinkView { a: "denied"@, family_a: Family::Error, b: "403"@, family_b: Family::Auth, forth: 5, back: 5 }
    } else if k == 18 {
        LinkView { a: "denied"@, family_a: Family::Error, b: "refused"@, family_b: Family::Network, forth: 6, back: 6 }
    } else if k == 19 {
        LinkView { a: "error"@, family_a: Family::Error, b: "exception"@, family_b: Family::Error, forth: 3, back: 3 }
    } else if k == 20 {
        LinkView { a: "error"@, family_a: Family::Error, b: "failure"@, family_b: Family::Error, forth: 3, back: 3 }
    } else if k == 21 {
        LinkView { a: "error"@, family_a: Family::Error, b: "failed"@, family_b: Family::Error, forth: 3, back: 3 }
    } else if k == 22 {
        LinkView { a: "error"@, family_a: Family::Error, b: "panic"@, family_b: Family::Error, forth: 3, back: 4 }
    } else if k == 23 {
        LinkView { a: "error"@, family_a: Family::Error, b: "fatal"@, family_b: Family::Error, forth: 4, back: 4 }
    } else if k == 24 {
        LinkView { a: "error"@, family_a: Family::Error, b: "crash"@, family_b: Family::Error, forth: 4, back: 4 }
    } else if k == 25 {
        LinkView { a: "error"@, family_a: Family::Error, b: "abort"@, family_b: Family::Error, forth: 5, back: 5 }
    } else if k == 26 {
        LinkView { a: "error"@, family_a: Family::Error, b: "traceback"@, family_b: Family::Error, forth: 5, back: 5 }
    } else if k == 27 {
        LinkView { a: "error"@, family_a: Family::Error, b: "stacktrace"@, family_b: Family::Error, forth: 5, back: 5 }
    } else if k == 28 {
        LinkView { a: "error"@, family_a: Family::Error, b: "invalid"@, family_b: Family::Error, forth: 5, back: 5 }
    } else if k == 29 {
        LinkView { a: "error"@, family_a: Family::Error, b: "denied"@, family_b: Family::Error, forth: 6, back: 6 }
    } else if k == 30 {
        LinkView { a: "timeout"@, family_a: Family::Network, b: "connection"@, family_b: Family::Network, forth: 3, back: 3 }
    } else if k == 31 {
        LinkView { a: "timeout"@, family_a: Family::Network, b: "retry"@, family_b: Family::Network, forth: 3, back: 3 }
    } else if k == 32 {
        LinkView { a: "timeout"@, family_a: Family::Network, b: "refused"@, family_b: Family::Network, forth: 3, back: 3 }
    } else if k == 33 {
        LinkView { a: "timeout"@, family_a: Family::Network, b: "latency"@, family_b: Family::Performance, forth: 3, back: 3 }
    } else if k == 34 {
        LinkView { a: "timeout"@, family_a: Family::Network, b: "unreachable"@, family_b: Family::Network, forth: 4, back: 4 }
    } else if k == 35 {
        LinkView { a: "timeout"@, family_a: Family::Network, b: "reset"@, family_b: Family::Network, forth: 4, back: 4 }
    } else if k == 36 {
        LinkView { a: "timeout"@, family_a: Family::Network, b: "disconnect"@, family_b: Family::Network, forth: 4, back: 4 }
    } else if k == 37 {
        LinkView { a: "timeout"@, family_a: Family::Network, b: "network"@, family_b: Family::Network, forth: 4, back: 5 }
    } else if k == 38 {
        LinkView { a: "timeout"@, family_a: Family::Network, b: "dns"@, family_b: Family::Network, forth: 5, back: 5 }
    } else if k == 39 {
        LinkView { a: "timeout"@, family_a: Family::Network, b: "socket"@, family_b: Family::Network, forth: 5, back: 5 }
    } else if k == 40 {
        LinkView { a: "timeout"@, family_a: Family::Network, b: "handshake"@, family_b: Family::Network, forth: 6, back: 6 }
    } else if k == 41 {
        LinkView { a: "timeout"@, family_a: Family::Network, b: "tls"@, family_b: Family::Network, forth: 6, back: 6 }
    } else if k == 42 {
        LinkView { a: "query"@, family_a: Family::Database, b: "deadlock"@, family_b: Family::Database, forth: 3, back: 3 }
    } else if k == 43 {
        LinkView { a: "query"@, family_a: Family::Database, b: "transaction"@, family_b: Family::Database, forth: 3, back: 3 }
    } else if k == 44 {
        LinkView { a: "query"@, family_a: Family::Database, b: "rollback"@, family_b: Family::Database, forth: 3, back: 3 }
    } else if k == 45 {
        LinkView { a: "query"@, family_a: Family::Database, b: "sql"@, family_b: Family::Database, forth: 4, back: 4 }
    } else if k == 46 {
        LinkView { a: "query"@, family_a: Family::Database, b: "database"@, family_b: Family::Database, forth: 4, back: 4 }
    } else if k == 47 {
        LinkView { a: "query"@, family_a: Family::Database, b: "commit"@, family_b: Family::Database, forth: 5, back: 5 }
    } else if k == 48 {
        LinkView { a: "query"@, family_a: Family::Database, b: "index"@, family_b: Family::Database, forth: 6, back: 6 }
    } else if k == 49 {
        LinkView { a: "query"@, family_a: Family::Database, b: "migration"@, family_b: Family::Database, forth: 6, back: 6 }
    } else if k == 50 {
        LinkView { a: "query"@, family_a: Family::Database, b: "replica"@, family_b: Family::Database, forth: 7, back: 7 }
    } else if k == 51 {
        LinkView { a: "slow"@, family_a: Family::Performance, b: "latency"@, family_b: Family::Performance, forth: 3, back: 3 }
    } else if k == 52 {
        LinkView { a: "slow"@, family_a: Family::Performance, b: "elapsed"@, family_b: Family::Performance, forth: 3, back: 3 }
    } else if k == 53 {
        LinkView { a: "slow"@, family_a: Family::Performance, b: "duration"@, family_b: Family::Performance, forth: 3, back: 3 }
    } else if k == 54 {
        LinkView { a: "slow"@, family_a: Family::Performance, b: "lag"@, family_b: Family::Performance, forth: 4, back: 4 }
    } else if k == 55 {
        LinkView { a: "slow"@, family_a: Family::Performance, b: "throughput"@, family_b: Family::Performance, forth: 5, back: 5 }
    } else if k == 56 {
        LinkView { a: "slow"@, family_a: Family::Performance, b: "bottleneck"@, family_b: Family::Performance, forth: 5, back: 5 }
    } else if k == 57 {
        LinkView { a: "slow"@, family_a: Family::Performance, b: "p99"@, family_b: Family::Performance, forth: 6, back: 6 }
    } else if k == 58 {
        LinkView { a: "startup"@, family_a: Family::Lifecycle, b: "init"@, family_b: Family::Lifecycle, forth: 3, back: 3 }
    } else if k == 59 {
        LinkView { a: "startup"@, family_a: Family::Lifecycle, b: "ready"@, family_b: Family::Lifecycle, forth: 3, back: 3 }
    } else if k == 60 {
        LinkView { a: "startup"@, family_a: Family::Lifecycle, b: "healthy"@, family_b: Family::Lifecycle, forth: 3, back: 3 }
    } else if k == 61 {
        LinkView { a: "startup"@, family_a: Family::Lifecycle, b: "boot"@, family_b: Family::Lifecycle, forth: 4, back: 4 }
    } else if k == 62 {
        LinkView { a: "startup"@, family_a: Family::Lifecycle, b: "restart"@, family_b: Family::Lifecycle, forth: 4, back: 4 }
    } else if k == 63 {
        LinkView { a: "startup"@, family_a: Family::Lifecycle, b: "shutdown"@, family_b: Family::Lifecycle, forth: 4, back: 5 }
    } else if k == 64 {
        LinkView { a: "startup"@, family_a: Family::Lifecycle, b: "deploy"@, family_b: Family::Lifecycle, forth: 5, back: 5 }
    } else if k == 65 {
        LinkView { a: "startup"@, family_a: Family::Lifecycle, b: "terminated"@, family_b: Family::Lifecycle, forth: 5, back: 5 }
    } else if k == 66 {
        LinkView { a: "oom"@, family_a: Family::Resource, b: "memory"@, family_b: Family::Resource, forth: 3, back: 3 }
    } else if k == 67 {
        LinkView { a: "oom"@, family_a: Family::Resource, b: "limit"@, family_b: Family::Resource, forth: 3, back: 3 }
    } else if k == 68 {
        LinkView { a: "oom"@, family_a: Family::Resource, b: "exhausted"@, family_b: Family::Resource, forth: 3, back: 3 }
    } else if k == 69 {
        LinkView { a: "oom"@, family_a: Family::Resource, b: "heap"@, family_b: Family::Resource, forth: 4, back: 4 }
    } else if k == 70 {
        LinkView { a: "oom"@, family_a: Family::Resource, b: "quota"@, family_b: Family::Resource, forth: 4, back: 4 }
    } else if k == 71 {
        LinkView { a: "oom"@, family_a: Family::Resource, b: "disk"@, family_b: Family::Resource, forth: 5, back: 5 }
    } else if k == 72 {
        LinkView { a: "oom"@, family_a: Family::Resource, b: "cpu"@, family_b: Family::Resource, forth: 5, back: 5 }
    } else if k == 73 {
        LinkView { a: "oom"@, family_a: Family::Resource, b: "leak"@, family_b: Family::Resource, forth: 5, back: 5 }
    } else if k == 74 {
        LinkView { a: "oom"@, family_a: Family::Resource, b: "throttle"@, family_b: Family::Resource, forth: 6, back: 6 }
    } else if k == 75 {
        LinkView { a: "auth"@, family_a: Family::Auth, b: "error"@, family_b: Family::Error, forth: 9, back: 9 }
    } else if k == 76 {
        LinkView { a: "error"@, family_a: Family::Error, b: "timeout"@, family_b: Family::Network, forth: 9, back: 9 }
    } else if k == 77 {
        LinkView { a: "timeout"@, family_a: Family::Network, b: "query"@, family_b: Family::Database, forth: 8, back: 9 }
    } else if k == 78 {
        LinkView { a: "connection"@, family_a: Family::Network, b: "database"@, family_b: Family::Database, forth: 8, back: 8 }
    } else if k == 79 {
        LinkView { a: "query"@, family_a: Family::Database, b: "slow"@, family_b: Family::Performance, forth: 8, back: 8 }
    } else if k == 80 {
        LinkView { a: "slow"@, family_a: Family::Performance, b: "oom"@, family_b: Family::Resource, forth: 9, back: 9 }
    } else if k == 81 {
        LinkView { a: "cpu"@, family_a: Family::Resource, b: "throughput"@, family_b: Family::Performance, forth: 7, back: 7 }
    } else if k == 82 {
        LinkView { a: "startup"@, family_a: Family::Lifecycle, b: "error"@, family_b: Family::Error, forth: 9, back: 10 }
    } else if k == 83 {
        LinkView { a: "crash"@, family_a: Family::Error, b: "terminated"@, family_b: Family::Lifecycle, forth: 8, back: 8 }
    } else {
        LinkView { a: "oom"@, family_a: Family::Resource, b: "crash"@, family_b: Family::Error, forth: 8, back: 8 }
    }
}

/// The ontology that the first `n` built-in links make.
pub open spec fn built_upto(n: nat) -> OntologyView
    decreases n,
{
    if n == 0 {
        OntologyView::empty()
    } else {
        built_upto((n - 1) as nat).connected(builtin_link(n - 1))
    }
}

/// The built-in ontology.
pub open spec fn builtin_model() -> OntologyView {
    built_upto(LINK_COUNT as nat)
}

/// The built-in link at a position.
pub fn pick_link(k: usize) -> (r: Link)
    ensures
        r@ == builtin_link(k as int),
        1 <= r.forth <= MAX_GREED,
        1 <= r.back <= MAX_GREED,
{
    if k == 0 {
        Link { a: "auth", family_a: Family::Auth, b: "login", family_b: Family::Auth, forth: 3, back: 3 }
    } else if k == 1 {
        Link { a: "auth", family_a: Family::Auth, b: "credential", family_b: Family::Auth, forth: 3, back: 3 }
    } else if k == 2 {
        Link { a: "auth", family_a: Family::Auth, b: "session", family_b: Family::Auth, forth: 3, back: 4 }
    } else if k == 3 {
        Link { a: "auth", family_a: Family::Auth, b: "token", family_b: Family::Auth, forth: 3, back: 3 }
    } else if k == 4 {
        Link { a: "auth", family_a: Family::Auth, b: "password", family_b: Family::Auth, forth: 4, back: 4 }
    } else if k == 5 {
        Link { a: "auth", family_a: Family::Auth, b: "oauth", family_b: Family::Auth, forth: 5, back: 4 }
    } else if k == 6 {
        Link { a: "auth", family_a: Family::Auth, b: "sso", family_b: Family::Auth, forth: 6, back: 5 }
    } else if k == 7 {
        Link { a: "auth", family_a: Family::Auth, b: "permission", family_b: Family::Auth, forth: 7, back: 7 }
    } else if k == 8 {
        Link { a: "auth", family_a: Family::Auth, b: "principal", family_b: Family::Auth, forth: 7, back: 7 }
    } else if k == 9 {
        Link { a: "auth", family_a: Family::Auth, b: "unauthorized", family_b: Family::Auth, forth: 6, back: 5 }
    } else if k == 10 {
        Link { a: "auth", family_a: Family::Auth, b: "unauthenticated", family_b: Family::Auth, forth: 6, back: 5 }
    } else if k == 11 {
        Link { a: "token", family_a: Family::Auth, b: "invalid_token", family_b: Family::Auth, forth: 4, back: 4 }
    } else if k == 12 {
        Link { a: "denied", family_a: Family::Error, b: "forbidden", family_b: Family::Auth, forth: 3, back: 3 }
    } else if k == 13 {
        Link { a: "denied", family_a: Family::Error, b: "rejected", family_b: Family::Error, forth: 3, back: 3 }
    } else if k == 14 {
        Link { a: "denied", family_a: Family::Error, b: "unauthorized", family_b: Family::Auth, forth: 4, back: 4 }
    } else if k == 15 {
        Link { a: "denied", family_a: Family::Error, b: "unauthenticated", family_b: Family::Auth, forth: 4, back: 4 }
    } else if k == 16 {
        Link { a: "denied", family_a: Family::Error, b: "401", family_b: Family::Auth, forth: 5, back: 5 }
    } else if k == 17 {
        Link { a: "denied", family_a: Family::Error, b: "403", family_b: Family::Auth, forth: 5, back: 5 }
    } else if k == 18 {
        Link { a: "denied", family_a: Family::Error, b: "refused", family_b: Family::Network, forth: 6, back: 6 }
    } else if k == 19 {
        Link { a: "error", family_a: Family::Error, b: "exception", family_b: Family::Error, forth: 3, back: 3 }
    } else if k == 20 {
        Link { a: "error", family_a: Family::Error, b: "failure", family_b: Family::Error, forth: 3, back: 3 }
    } else if k == 21 {
        Link { a: "error", family_a: Family::Error, b: "failed", family_b: Family::Error, forth: 3, back: 3 }
    } else if k == 22 {
        Link { a: "error", family_a: Family::Error, b: "panic", family_b: Family::Error, forth: 3, back: 4 }
    } else if k == 23 {
        Link { a: "error", family_a: Family::Error, b: "fatal", family_b: Family::Error, forth: 4, back: 4 }
    } else if k == 24 {
        Link { a: "error", family_a: Family::Error, b: "crash", family_b: Family::Error, forth: 4, back: 4 }
    } else if k == 25 {
        Link { a: "error", family_a: Family::Error, b: "abort", family_b: Family::Error, forth: 5, back: 5 }
    } else if k == 26 {
        Link { a: "error", family_a: Family::Error, b: "traceback", family_b: Family::Error, forth: 5, back: 5 }
    } else if k == 27 {
        Link { a: "error", family_a: Family::Error, b: "stacktrace", family_b: Family::Error, forth: 5, back: 5 }
    } else if k == 28 {
        Link { a: "error", family_a: Family::Error, b: "invalid", family_b: Family::Error, forth: 5, back: 5 }
    } else if k == 29 {
        Link { a: "error", family_a: Family::Error, b: "denied", family_b: Family::Error, forth: 6, back: 6 }
    } else if k == 30 {
        Link { a: "timeout", family_a: Family::Network, b: "connection", family_b: Family::Network, forth: 3, back: 3 }
    } else if k == 31 {
        Link { a: "timeout", family_a: Family::Network, b: "retry", family_b: Family::Network, forth: 3, back: 3 }
    } else if k == 32 {
        Link { a: "timeout", family_a: Family::Network, b: "refused", family_b: Family::Network, forth: 3, back: 3 }
    } else if k == 33 {
        Link { a: "timeout", family_a: Family::Network, b: "latency", family_b: Family::Performance, forth: 3, back: 3 }
    } else if k == 34 {
        Link { a: "timeout", family_a: Family::Network, b: "unreachable", family_b: Family::Network, forth: 4, back: 4 }
    } else if k == 35 {
        Link { a: "timeout", family_a: Family::Network, b: "reset", family_b: Family::Network, forth: 4, back: 4 }
    } else if k == 36 {
        Link { a: "timeout", family_a: Family::Network, b: "disconnect", family_b: Family::Network, forth: 4, back: 4 }
    } else if k == 37 {
        Link { a: "timeout", family_a: Family::Network, b: "network", family_b: Family::Network, forth: 4, back: 5 }
    } else if k == 38 {
        Link { a: "timeout", family_a: Family::Network, b: "dns", family_b: Family::Network, forth: 5, back: 5 }
    } else if k == 39 {
        Link { a: "timeout", family_a: Family::Network, b: "socket", family_b: Family::Network, forth: 5, back: 5 }
    } else if k == 40 {
        Link { a: "timeout", family_a: Family::Network, b: "handshake", family_b: Family::Network, forth: 6, back: 6 }
    } else if k == 41 {
        Link { a: "timeout", family_a: Family::Network, b: "tls", family_b: Family::Network, forth: 6, back: 6 }
    } else if k == 42 {
        Link { a: "query", family_a: Family::Database, b: "deadlock", family_b: Family::Database, forth: 3, back: 3 }
    } else if k == 43 {
        Link { a: "query", family_a: Family::Database, b: "transaction", family_b: Family::Database, forth: 3, back: 3 }
    } else if k == 44 {
        Link { a: "query", family_a: Family::Database, b: "rollback", family_b: Family::Database, forth: 3, back: 3 }
    } else if k == 45 {
        Link { a: "query", family_a: Family::Database, b: "sql", family_b: Family::Database, forth: 4, back: 4 }
    } else if k == 46 {
        Link { a: "query", family_a: Family::Database, b: "database", family_b: Family::Database, forth: 4, back: 4 }
    } else if k == 47 {
        Link { a: "query", family_a: Family::Database, b: "commit", family_b: Family::Database, forth: 5, back: 5 }
    } else if k == 48 {
        Link { a: "query", family_a: Family::Database, b: "index", family_b: Family::Database, forth: 6, back: 6 }
    } else if k == 49 {
        Link { a: "query", family_a: Family::Database, b: "migration", family_b: Family::Database, forth: 6, back: 6 }
    } else if k == 50 {
        Link { a: "query", family_a: Family::Database, b: "replica", family_b: Family::Database, forth: 7, back: 7 }
    } else if k == 51 {
        Link { a: "slow", family_a: Family::Performance, b: "latency", family_b: Family::Performance, forth: 3, back: 3 }
    } else if k == 52 {
        Link { a: "slow", family_a: Family::Performance, b: "elapsed", family_b: Family::Performance, forth: 3, back: 3 }
    } else if k == 53 {
        Link { a: "slow", family_a: Family::Performance, b: "duration", family_b: Family::Performance, forth: 3, back: 3 }
    } else if k == 54 {
        Link { a: "slow", family_a: Family::Performance, b: "lag", family_b: Family::Performance, forth: 4, back: 4 }
    } else if k == 55 {
        Link { a: "slow", family_a: Family::Performance, b: "throughput", family_b: Family::Performance, forth: 5, back: 5 }
    } else if k == 56 {
        Link { a: "slow", family_a: Family::Performance, b: "bottleneck", family_b: Family::Performance, forth: 5, back: 5 }
    } else if k == 57 {
        Link { a: "slow", family_a: Family::Performance, b: "p99", family_b: Family::Performance, forth: 6, back: 6 }
    } else if k == 58 {
        Link { a: "startup", family_a: Family::Lifecycle, b: "init", family_b: Family::Lifecycle, forth: 3, back: 3 }
    } else if k == 59 {
        Link { a: "startup", family_a: Family::Lifecycle, b: "ready", family_b: Family::Lifecycle, forth: 3, back: 3 }
    } else if k == 60 {
        Link { a: "startup", family_a: Family::Lifecycle, b: "healthy", family_b: Family::Lifecycle, forth: 3, back: 3 }
    } else if k == 61 {
        Link { a: "startup", family_a: Family::Lifecycle, b: "boot", family_b: Family::Lifecycle, forth: 4, back: 4 }
    } else if k == 62 {
        Link { a: "startup", family_a: Family::Lifecycle, b: "restart", family_b: Family::Lifecycle, forth: 4, back: 4 }
    } else if k == 63 {
        Link { a: "startup", family_a: Family::Lifecycle, b: "shutdown", family_b: Family::Lifecycle, forth: 4, back: 5 }
    } else if k == 64 {
        Link { a: "startup", family_a: Family::Lifecycle, b: "deploy", family_b: Family::Lifecycle, forth: 5, back: 5 }
    } else if k == 65 {
        Link { a: "startup", family_a: Family::Lifecycle, b: "terminated", family_b: Family::Lifecycle, forth: 5, back: 5 }
    } else if k == 66 {
        Link { a: "oom", family_a: Family::Resource, b: "memory", family_b: Family::Resource, forth: 3, back: 3 }
    } else if k == 67 {
        Link { a: "oom", family_a: Family::Resource, b: "limit", family_b: Family::Resource, forth: 3, back: 3 }
    } else if k == 68 {
        Link { a: "oom", family_a: Family::Resource, b: "exhausted", family_b: Family::Resource, forth: 3, back: 3 }
    } else if k == 69 {
        Link { a: "oom", family_a: Family::Resource, b: "heap", family_b: Family::Resource, forth: 4, back: 4 }
    } else if k == 70 {
        Link { a: "oom", family_a: Family::Resource, b: "quota", family_b: Family::Resource, forth: 4, back: 4 }
    } else if k == 71 {
        Link { a: "oom", family_a: Family::Resource, b: "disk", family_b: Family::Resource, forth: 5, back: 5 }
    } else if k == 72 {
        Link { a: "oom", family_a: Family::Resource, b: "cpu", family_b: Family::Resource, forth: 5, back: 5 }
    } else if k == 73 {
        Link { a: "oom", family_a: Family::Resource, b: "leak", family_b: Family::Resource, forth: 5, back: 5 }
    } else if k == 74 {
        Link { a: "oom", family_a: Family::Resource, b: "throttle", family_b: Family::Resource, forth: 6, back: 6 }
    } else if k == 75 {
        Link { a: "auth", family_a: Family::Auth, b: "error", family_b: Family::Error, forth: 9, back: 9 }
    } else if k == 76 {
        Link { a: "error", family_a: Family::Error, b: "timeout", family_b: Family::Network, forth: 9, back: 9 }
    } else if k == 77 {
        Link { a: "timeout", family_a: Family::Network, b: "query", family_b: Family::Database, forth: 8, back: 9 }
    } else if k == 78 {
        Link { a: "connection", family_a: Family::Network, b: "database", family_b: Family::Database, forth: 8, back: 8 }
    } else if k == 79 {
        Link { a: "query", family_a: Family::Database, b: "slow", family_b: Family::Performance, forth: 8, back: 8 }
    } else if k == 80 {
        Link { a: "slow", family_a: Family::Performance, b: "oom", family_b: Family::Resource, forth: 9, back: 9 }
    } else if k == 81 {
        Link { a: "cpu", family_a: Family::Resource, b: "throughput", family_b: Family::Performance, forth: 7, back: 7 }
    } else if k == 82 {
        Link { a: "startup", family_a: Family::Lifecycle, b: "error", family_b: Family::Error, forth: 9, back: 10 }
    } else if k == 83 {
        Link { a: "crash", family_a: Family::Error, b: "terminated", family_b: Family::Lifecycle, forth: 8, back: 8 }
    } else {
        Link { a: "oom", family_a: Family::Resource, b: "crash", family_b: Family::Error, forth: 8, back: 8 }
    }
}

impl Ontology {
    /// No term occurs twice, every term has a family, every edge joins two
    /// terms with a weight from 1 to 10, and every edge has an edge that
    /// runs the other way.
    pub open spec fn wf(&self) -> bool {
        &&& self.families@.len() == self.terms@.len()
        &&& forall|i: int, j: int|
            0 <= i < j < self.terms@.len() ==> (#[trigger] self.terms@[i])@ != (
            #[trigger] self.terms@[j])@
        &&& forall|k: int|
            0 <= k < self.edges@.len() ==> {
                &&& (#[trigger] self.edges@[k]).from < self.terms@.len()
                &&& self.edges@[k].to < self.terms@.len()
                &&& 1 <= self.edges@[k].weight <= MAX_GREED
            }
        &&& forall|k: int|
            0 <= k < self.edges@.len() ==> self.has_edge(
                (#[trigger] self.edges@[k]).to as int,
                self.edges@[k].from as int,
            )
    }

    /// There is an edge from `a` to `b`, of whatever weight.
    pub open spec fn has_edge(&self, a: int, b: int) -> bool {
        exists|k: int|
            0 <= k < self.edges@.len() && (#[trigger] self.edges@[k]).from == a
                && self.edges@[k].to == b
    }

    /// There is an edge from `a` to `b` whose weight is at most `greed`.
    pub open spec fn admits(&self, a: int, b: int, greed: int) -> bool {
        exists|k: int|
            0 <= k < self.edges@.len() && (#[trigger] self.edges@[k]).from == a
                && self.edges@[k].to == b && self.edges@[k].weight <= greed
    }

    /// `p` is a walk along edges whose weights are at most `greed`.
    pub open spec fn is_path(&self, p: Seq<int>, greed: int) -> bool {
        &&& p.len() >= 1
        &&& forall|i: int| 0 <= i < p.len() - 1 ==> self.admits(#[trigger] p[i], p[i + 1], greed)
    }

    /// `b` is reached from `a` at a greed: a walk along edges of weight at
    /// most `greed` leads from `a` to `b`. Every term reaches itself.
    pub open spec fn reaches(&self, a: int, b: int, greed: int) -> bool {
        exists|p: Seq<int>| self.is_path(p, greed) && #[trigger] p.first() == a && p.last() == b
    }

    /// The number of terms.
    pub fn len(&self) -> (r: usize)
        ensures
            r == self.terms@.len(),
    {
        self.terms.len()
    }

    /// An ontology without terms.
    pub fn empty() -> (r: Ontology)
        ensures
            r.wf(),
            r.terms@.len() == 0,
            r.edges@.len() == 0,
            r@ == OntologyView::empty(),
    {
        let r = Ontology { terms: Vec::new(), families: Vec::new(), edges: Vec::new() };
        assert(r@.terms =~= OntologyView::empty().terms);
        assert(r@.families =~= OntologyView::empty().families);
        assert(r@.edges =~= OntologyView::empty().edges);
        r
    }

    /// The position of a term, if the ontology has it. Where a term occurs
    /// twice, the first position is given.
    pub fn index_of(&self, term: &Vec<char>) -> (r: Option<usize>)
        ensures
            match r {
                Some(i) => i < self.terms@.len() && self.terms@[i as int]@ == term@ && forall|
                    j: int,
                | 0 <= j < i ==> self.terms@[j]@ != term@,
                None => forall|j: int| 0 <= j < self.terms@.len() ==> self.terms@[j]@ != term@,
            },
    {
        let mut i: usize = 0;
        while i < self.terms.len()
            invariant
                i <= self.terms@.len(),
                forall|j: int| 0 <= j < i ==> self.terms@[j]@ != term@,
            decreases self.terms.len() - i,
        {
            if same_chars(&self.terms[i], term) {
                return Some(i);
            }
            i += 1;
        }
        None
    }

    /// Adds a term of a family and returns its position. A term that the
    /// ontology has already keeps its position and family.
    pub fn add_term(&mut self, term: &str, family: Family) -> (r: usize)
        requires
            old(self).wf(),
        ensures
            final(self).wf(),
            r < final(self).terms@.len(),
            final(self).terms@[r as int]@ == term@,
            final(self).edges == old(self).edges,
            final(self).terms@.len() >= old(self).terms@.len(),
            forall|j: int|
                0 <= j < old(self).terms@.len() ==> final(self).terms@[j] == old(self).terms@[j],
            final(self)@ == old(self)@.with_term(term@, family),
            r as int == final(self)@.place(term@),
    {
        let text = chars_of(term);
        match self.index_of(&text) {
            Some(i) => {
                proof {
                    assert(self@.terms[i as int] == term@);
                    assert(self@.terms.contains(term@));
                    self.lemma_place(i as int, term@);
                }
                i
            },
            None => {
                proof {
                    assert(!self@.terms.contains(term@)) by {
                        if self@.terms.contains(term@) {
                            let j = choose|j: int|
                                0 <= j < self@.terms.len() && self@.terms[j] == term@;
                            assert(self.terms@[j]@ == term@);
                        }
                    }
                }
                self.terms.push(text);
                self.families.push(family);
                proof {
                    assert(self@.terms =~= old(self)@.terms.push(term@));
                    assert forall|k: int| 0 <= k < self.edges@.len() implies self.has_edge(
                        (#[trigger] self.edges@[k]).to as int,
                        self.edges@[k].from as int,
                    ) by {
                        assert(old(self).has_edge(
                            old(self).edges@[k].to as int,
                            old(self).edges@[k].from as int,
                        ));
                    }
                    self.lemma_place(self.terms@.len() - 1, term@);
                }
                self.terms.len() - 1
            },
        }
    }

    /// In a well-formed ontology a term has one position.
    pub proof fn lemma_place(&self, i: int, term: Seq<char>)
        requires
            self.wf(),
            0 <= i < self.terms@.len(),
            self.terms@[i]@ == term,
        ensures
            self@.place(term) == i,
    {
        assert(self@.terms[i] == term);
        let c = self@.place(term);
        assert(0 <= c < self@.terms.len() && self@.terms[c] == term);
        if c < i {
            assert(self.terms@[c]@ != self.terms@[i]@);
        } else if i < c {
            assert(self.terms@[i]@ != self.terms@[c]@);
        }
    }

    /// Links two terms: an edge from `a` to `b` of weight `forth` and one
    /// from `b` to `a` of weight `back`.
    pub fn link(&mut self, a: usize, b: usize, forth: u8, back: u8)
        requires
            old(self).wf(),
            a < old(self).terms@.len(),
            b < old(self).terms@.len(),
            1 <= forth <= MAX_GREED,
            1 <= back <= MAX_GREED,
        ensures
            final(self).wf(),
            final(self).terms == old(self).terms,
            final(self).families == old(self).families,
            final(self).edges@ == old(self).edges@.push(
                Edge { from: a, to: b, weight: forth },
            ).push(Edge { from: b, to: a, weight: back }),
            final(self)@ == old(self)@.linked(a as int, b as int, forth, back),
    {
        let ghost before = self.edges@;
        self.edges.push(Edge { from: a, to: b, weight: forth });
        self.edges.push(Edge { from: b, to: a, weight: back });
        proof {
            let n = before.len() as int;
            assert forall|k: int| 0 <= k < self.edges@.len() implies self.has_edge(
                (#[trigger] self.edges@[k]).to as int,
                self.edges@[k].from as int,
            ) by {
                if k < n {
                    assert(old(self).has_edge(before[k].to as int, before[k].from as int));
                    let w = choose|w: int|
                        0 <= w < before.len() && (#[trigger] before[w]).from == before[k].to
                            && before[w].to == before[k].from;
                    assert(self.edges@[w] == before[w]);
                } else if k == n {
                    assert(self.edges@[n + 1].from == b && self.edges@[n + 1].to == a);
                } else {
                    assert(self.edges@[n].from == a && self.edges@[n].to == b);
                }
            }
        }
    }

    /// Adds both terms, where the ontology lacks them, and links them.
    pub fn connect(
        &mut self,
        a: &str,
        family_a: Family,
        b: &str,
        family_b: Family,
        forth: u8,
        back: u8,
    )
        requires
            old(self).wf(),
            1 <= forth <= MAX_GREED,
            1 <= back <= MAX_GREED,
        ensures
            final(self).wf(),
            final(self)@ == old(self)@.connected(
                LinkView { a: a@, family_a, b: b@, family_b, forth, back },
            ),
    {
        let i: usize = self.add_term(a, family_a);
        let ghost first = *self;
        let j: usize = self.add_term(b, family_b);
        proof {
            assert(self.terms@[i as int] == first.terms@[i as int]);
            self.lemma_place(i as int, a@);
        }
        self.link(i, j, forth, back);
    }

    /// The built-in ontology: seven families of terms, each around a hub,
    /// and bridges between the families.
    pub fn builtin() -> (o: Ontology)
        ensures
            o.wf(),
            o@ == builtin_model(),
    {
        let mut o = Ontology::empty();
        let mut k: usize = 0;
        while k < LINK_COUNT
            invariant
                k <= LINK_COUNT,
                o.wf(),
                o@ == built_upto(k as nat),
            decreases LINK_COUNT - k,
        {
            let l = pick_link(k);
            o.connect(l.a, l.family_a, l.b, l.family_b, l.forth, l.back);
            k += 1;
        }
        o
    }

    /// The terms reached from `start` at a greed, as one flag for each term.
    pub fn reach(&self, start: usize, greed: u8) -> (seen: Vec<bool>)
        requires
            self.wf(),
            start < self.terms@.len(),
        ensures
            seen@.len() == self.terms@.len(),
            forall|i: int|
                0 <= i < seen@.len() ==> seen@[i] == self.reaches(start as int, i, greed as int),
    {
        let n: usize = self.terms.len();
        let mut seen: Vec<bool> = Vec::new();
        let mut i: usize = 0;
        while i < n
            invariant
                i <= n,
                seen@.len() == i,
                forall|j: int| 0 <= j < i ==> !seen@[j],
            decreases n - i,
        {
            seen.push(false);
            i += 1;
        }
        seen[start] = true;
        proof {
            let p = seq![start as int];
            assert(self.is_path(p, greed as int));
            assert(p.first() == start && p.last() == start);
        }
        let mut unseen: usize = n - 1;
        let mut changed: bool = true;
        assert(count_false(seen@) == unseen) by {
            lemma_count_false_all(seen@.update(start as int, false));
            lemma_count_false_set(seen@.update(start as int, false), start as int);
            assert(seen@.update(start as int, false).update(start as int, true) =~= seen@);
        }
        while changed
            invariant
                n == self.terms@.len(),
                self.wf(),
                start < n,
                seen@.len() == n,
                seen@[start as int],
                count_false(seen@) == unseen,
                forall|j: int| 0 <= j < n && seen@[j] ==> self.reaches(start as int, j, greed as int),
                !changed ==> self.closed(seen@, greed as int),
            decreases unseen + (if changed { 1int } else { 0int }),
        {
            changed = false;
            let ghost at_start = seen@;
            let mut k: usize = 0;
            while k < self.edges.len()
                invariant
                    n == self.terms@.len(),
                    self.wf(),
                    start < n,
                    k <= self.edges@.len(),
                    seen@.len() == n,
                    seen@[start as int],
                    count_false(seen@) == unseen,
                    count_false(at_start) >= unseen,
                    changed ==> count_false(at_start) > unseen,
                    !changed ==> seen@ == at_start,
                    forall|j: int|
                        0 <= j < n && seen@[j] ==> self.reaches(start as int, j, greed as int),
                    !changed ==> forall|e: int|
                        0 <= e < k && (#[trigger] self.edges@[e]).weight <= greed
                            && seen@[self.edges@[e].from as int] ==> seen@[self.edges@[e].to as int],
                decreases self.edges.len() - k,
            {
                let edge = self.edges[k];
                if edge.weight <= greed && seen[edge.from] && !seen[edge.to] {
                    proof {
                        let p = choose|p: Seq<int>|
                            self.is_path(p, greed as int) && #[trigger] p.first() == start
                                && p.last() == edge.from;
                        self.lemma_extend(p, edge.to as int, greed as int);
                        assert(p.push(edge.to as int).first() == start);
                        lemma_count_false_set(seen@, edge.to as int);
                    }
                    seen[edge.to] = true;
                    unseen = unseen - 1;
                    changed = true;
                }
                k += 1;
            }
            proof {
                if !changed {
                    assert forall|a: int, b: int|
                        0 <= a < n && 0 <= b < n && seen@[a] && self.admits(
                            a,
                            b,
                            greed as int,
                        ) implies seen@[b] by {
                        let e = choose|e: int|
                            0 <= e < self.edges@.len() && (#[trigger] self.edges@[e]).from == a
                                && self.edges@[e].to == b && self.edges@[e].weight <= greed;
                        assert(seen@[self.edges@[e].to as int]);
                    }
                }
            }
        }
        proof {
            assert forall|i: int| 0 <= i < n implies seen@[i] == self.reaches(
                start as int,
                i,
                greed as int,
            ) by {
                if self.reaches(start as int, i, greed as int) {
                    let p = choose|p: Seq<int>|
                        self.is_path(p, greed as int) && #[trigger] p.first() == start
                            && p.last() == i;
                    self.lemma_closed_holds_path(seen@, p, greed as int, p.len() - 1);
                }
            }
        }
        seen
    }

    /// A set of terms is closed at a greed: no admitted edge leads out of it.
    pub open spec fn closed(&self, seen: Seq<bool>, greed: int) -> bool {
        forall|a: int, b: int|
            0 <= a < seen.len() && 0 <= b < seen.len() && seen[a] && #[trigger] self.admits(
                a,
                b,
                greed,
            ) ==> seen[b]
    }

    /// A path that is extended by an admitted step is a path.
    pub proof fn lemma_extend(&self, p: Seq<int>, b: int, greed: int)
        requires
            self.is_path(p, greed),
            self.admits(p.last(), b, greed),
        ensures
            self.is_path(p.push(b), greed),
            p.push(b).last() == b,
    {
        let q = p.push(b);
        assert forall|i: int| 0 <= i < q.len() - 1 implies self.admits(
            #[trigger] q[i],
            q[i + 1],
            greed,
        ) by {
            if i < p.len() - 1 {
                assert(self.admits(p[i], p[i + 1], greed));
            }
        }
    }

    /// A closed set that holds the start of a path holds all of it.
    pub proof fn lemma_closed_holds_path(&self, seen: Seq<bool>, p: Seq<int>, greed: int, i: int)
        requires
            self.wf(),
            seen.len() == self.terms@.len(),
            self.closed(seen, greed),
            self.is_path(p, greed),
            0 <= p.first() < seen.len(),
            seen[p.first()],
            0 <= i < p.len(),
        ensures
            0 <= p[i] < seen.len(),
            seen[p[i]],
        decreases i,
    {
        if i > 0 {
            self.lemma_closed_holds_path(seen, p, greed, i - 1);
            assert(self.admits(p[i - 1], p[i], greed));
        }
    }
}

/// The number of flags that are not set.
pub open spec fn count_false(s: Seq<bool>) -> nat
    decreases s.len(),
{
    if s.len() == 0 {
        0
    } else {
        count_false(s.drop_last()) + if s.last() {
            0nat
        } else {
            1nat
        }
    }
}

/// Where no flag is set, the count is the length.
pub proof fn lemma_count_false_all(s: Seq<bool>)
    requires
        forall|i: int| 0 <= i < s.len() ==> !s[i],
    ensures
        count_false(s) == s.len(),
    decreases s.len(),
{
    if s.len() > 0 {
        lemma_count_false_all(s.drop_last());
    }
}

/// Setting a flag that was not set lowers the count by one.
pub proof fn lemma_count_false_set(s: Seq<bool>, i: int)
    requires
        0 <= i < s.len(),
        !s[i],
    ensures
        count_false(s.update(i, true)) + 1 == count_false(s),
    decreases s.len(),
{
    if i == s.len() - 1 {
        assert(s.update(i, true).drop_last() =~= s.drop_last());
    } else {
        lemma_count_false_set(s.drop_last(), i);
        assert(s.update(i, true).drop_last() =~= s.drop_last().update(i, true));
    }
}

// ---------------------------------------------------------------------------
// Laws
// ---------------------------------------------------------------------------

/// Reach grows with greed: what is reached at a greed is reached at every
/// higher greed.
pub proof fn law_reach_monotone(o: &Ontology, a: int, b: int, g: int, h: int)
    requires
        g <= h,
        o.reaches(a, b, g),
    ensures
        o.reaches(a, b, h),
{
    let p = choose|p: Seq<int>| o.is_path(p, g) && #[trigger] p.first() == a && p.last() == b;
    assert forall|i: int| 0 <= i < p.len() - 1 implies o.admits(#[trigger] p[i], p[i + 1], h) by {
        assert(o.admits(p[i], p[i + 1], g));
        let k = choose|k: int|
            0 <= k < o.edges@.len() && (#[trigger] o.edges@[k]).from == p[i] && o.edges@[k].to
                == p[i + 1] && o.edges@[k].weight <= g;
        assert(o.edges@[k].weight <= h);
    }
    assert(o.is_path(p, h));
}

/// Backwards resolution: if `b` is reached from `a` at a greed `g` of at
/// most 10, then `a` is reached from `b` at some greed `h` from `g` to 10,
/// namely at 10.
pub proof fn law_backwards_resolution(o: &Ontology, a: int, b: int, g: int)
    requires
        o.wf(),
        g <= MAX_GREED,
        o.reaches(a, b, g),
    ensures
        exists|h: int| g <= h <= MAX_GREED && #[trigger] o.reaches(b, a, h),
{
    let p = choose|p: Seq<int>| o.is_path(p, g) && #[trigger] p.first() == a && p.last() == b;
    let q = p.reverse();
    assert forall|i: int| 0 <= i < q.len() - 1 implies o.admits(
        #[trigger] q[i],
        q[i + 1],
        MAX_GREED as int,
    ) by {
        let j = p.len() - 2 - i;
        assert(q[i] == p[j + 1] && q[i + 1] == p[j]);
        assert(o.admits(p[j], p[j + 1], g));
        let k = choose|k: int|
            0 <= k < o.edges@.len() && (#[trigger] o.edges@[k]).from == p[j] && o.edges@[k].to
                == p[j + 1] && o.edges@[k].weight <= g;
        assert(o.has_edge(o.edges@[k].to as int, o.edges@[k].from as int));
        let r = choose|r: int|
            0 <= r < o.edges@.len() && (#[trigger] o.edges@[r]).from == o.edges@[k].to
                && o.edges@[r].to == o.edges@[k].from;
        assert(o.edges@[r].weight <= MAX_GREED);
    }
    assert(o.is_path(q, MAX_GREED as int));
    assert(q.first() == b && q.last() == a);
    assert(o.reaches(b, a, MAX_GREED as int));
}

} // verus!
