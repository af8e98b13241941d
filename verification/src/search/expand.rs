//! Greedy expansion of a free term over the ontology.
//!
//! At greed 0 a term stands for itself alone. From greed 1 on it also stands
//! for every term that the ontology reaches from it at that greed. From
//! greed 2 on it stands for the terms that share its first three characters.
//! A term that begins with a negative prefix (`un`, `fail`, `err`,
//! `invalid`, `no`, `cant`, `denied`) is also searched from `error` at greed
//! 3 and above, and from `denied` at greed 5 and above.
//!
//! Each term of the expansion has a distance: the least greed at which the
//! ontology reaches it, or, for a term that is found by its prefix,
//! `min(greed, 3)` if that is less.

use crate::search::ontology::{law_backwards_resolution, law_reach_monotone, Ontology, MAX_GREED};
use crate::text::{chars_of, has_prefix, starts_with};
use vstd::prelude::*;

verus! {

/// The term begins with one of the negative prefixes.
pub open spec fn negative_prefixed(t: Seq<char>) -> bool {
    has_prefix(t, "un"@) || has_prefix(t, "fail"@) || has_prefix(t, "err"@) || has_prefix(
        t,
        "invalid"@,
    ) || has_prefix(t, "no"@) || has_prefix(t, "cant"@) || has_prefix(t, "denied"@)
}

/// Tells whether a term begins with one of the negative prefixes.
pub fn is_negative(t: &Vec<char>) -> (r: bool)
    ensures
        r == negative_prefixed(t@),
{
    starts_with(t, &chars_of("un")) || starts_with(t, &chars_of("fail")) || starts_with(
        t,
        &chars_of("err"),
    ) || starts_with(t, &chars_of("invalid")) || starts_with(t, &chars_of("no")) || starts_with(
        t,
        &chars_of("cant"),
    ) || starts_with(t, &chars_of("denied"))
}

/// The two terms are at least three characters long and share their first
/// three characters.
pub open spec fn prefix_mate(t: Seq<char>, u: Seq<char>) -> bool {
    t.len() >= 3 && u.len() >= 3 && t.take(3) == u.take(3)
}

/// Tells whether two terms share their first three characters.
pub fn shares_prefix(t: &Vec<char>, u: &Vec<char>) -> (r: bool)
    ensures
        r == prefix_mate(t@, u@),
{
    if t.len() < 3 || u.len() < 3 {
        return false;
    }
    let same: bool = t[0] == u[0] && t[1] == u[1] && t[2] == u[2];
    proof {
        if same {
            assert(t@.take(3) =~= u@.take(3));
        } else {
            assert(t@.take(3)[0] == t@[0] && t@.take(3)[1] == t@[1] && t@.take(3)[2] == t@[2]);
            assert(u@.take(3)[0] == u@[0] && u@.take(3)[1] == u@[1] && u@.take(3)[2] == u@[2]);
        }
    }
    same
}

/// The term at `s` is a starting point of the search for `t` at a greed:
/// `t` itself, and for a negative `t` also `error` from greed 3 and
/// `denied` from greed 5.
pub open spec fn is_seed(o: &Ontology, t: Seq<char>, s: int, greed: int) -> bool {
    &&& 0 <= s < o.terms@.len()
    &&& {
        ||| o.terms@[s]@ == t
        ||| negative_prefixed(t) && greed >= 3 && o.terms@[s]@ == "error"@
        ||| negative_prefixed(t) && greed >= 5 && o.terms@[s]@ == "denied"@
    }
}

/// The ontology reaches the term at `i` from a starting point of the search
/// for `t`.
pub open spec fn seed_reaches(o: &Ontology, t: Seq<char>, i: int, greed: int) -> bool {
    exists|s: int| is_seed(o, t, s, greed) && #[trigger] o.reaches(s, i, greed)
}

/// The term at `i` belongs to the expansion of `t` at a greed.
pub open spec fn in_expansion(o: &Ontology, t: Seq<char>, i: int, greed: int) -> bool {
    &&& 0 <= i < o.terms@.len()
    &&& {
        ||| greed >= 1 && seed_reaches(o, t, i, greed)
        ||| greed >= 2 && prefix_mate(t, o.terms@[i]@)
    }
}

/// The least greed from 1 to `greed` at which the ontology reaches the term
/// at `i` in the search for `t`; 0 if there is none.
pub open spec fn graph_distance(o: &Ontology, t: Seq<char>, i: int, greed: int) -> int
    decreases greed,
{
    if greed <= 0 {
        0
    } else {
        let before = graph_distance(o, t, i, greed - 1);
        if before > 0 {
            before
        } else if seed_reaches(o, t, i, greed) {
            greed
        } else {
            0
        }
    }
}

/// The distance at which a term is found by its prefix: `min(greed, 3)` from
/// greed 2 on; 0 if it is not found so.
pub open spec fn prefix_distance(t: Seq<char>, u: Seq<char>, greed: int) -> int {
    if greed >= 2 && prefix_mate(t, u) {
        if greed < 3 {
            greed
        } else {
            3
        }
    } else {
        0
    }
}

/// The distance of the term at `i` in the expansion of `t`: the lesser of
/// its graph distance and its prefix distance, where it has both; 0 if it
/// does not belong to the expansion.
pub open spec fn term_distance(o: &Ontology, t: Seq<char>, i: int, greed: int) -> int {
    let g = graph_distance(o, t, i, greed);
    let p = prefix_distance(t, o.terms@[i]@, greed);
    if g == 0 {
        p
    } else if p == 0 {
        g
    } else if g <= p {
        g
    } else {
        p
    }
}

/// Marks the terms that the ontology reaches, at a greed, from the starting
/// points of the search for `t`.
fn seed_reach(o: &Ontology, t: &Vec<char>, negative: bool, greed: u8) -> (flags: Vec<bool>)
    requires
        o.wf(),
        negative == negative_prefixed(t@),
    ensures
        flags@.len() == o.terms@.len(),
        forall|i: int|
            0 <= i < flags@.len() ==> flags@[i] == seed_reaches(o, t@, i, greed as int),
{
    let n: usize = o.terms.len();
    let own: Option<usize> = o.index_of(t);
    let error: Option<usize> = if negative && greed >= 3 {
        o.index_of(&chars_of("error"))
    } else {
        None
    };
    let denied: Option<usize> = if negative && greed >= 5 {
        o.index_of(&chars_of("denied"))
    } else {
        None
    };
    let from_own: Option<Vec<bool>> = match own {
        Some(s) => Some(o.reach(s, greed)),
        None => None,
    };
    let from_error: Option<Vec<bool>> = match error {
        Some(s) => Some(o.reach(s, greed)),
        None => None,
    };
    let from_denied: Option<Vec<bool>> = match denied {
        Some(s) => Some(o.reach(s, greed)),
        None => None,
    };
    let mut flags: Vec<bool> = Vec::new();
    let mut i: usize = 0;
    while i < n
        invariant
            i <= n,
            n == o.terms@.len(),
            o.wf(),
            flags@.len() == i,
            negative == negative_prefixed(t@),
            match own {
                Some(s) => s < n && o.terms@[s as int]@ == t@,
                None => forall|j: int| 0 <= j < n ==> o.terms@[j]@ != t@,
            },
            match error {
                Some(s) => s < n && o.terms@[s as int]@ == "error"@ && negative && greed >= 3,
                None => !(negative && greed >= 3) || forall|j: int|
                    0 <= j < n ==> o.terms@[j]@ != "error"@,
            },
            match denied {
                Some(s) => s < n && o.terms@[s as int]@ == "denied"@ && negative && greed >= 5,
                None => !(negative && greed >= 5) || forall|j: int|
                    0 <= j < n ==> o.terms@[j]@ != "denied"@,
            },
            (own is Some) == (from_own is Some),
            (error is Some) == (from_error is Some),
            (denied is Some) == (from_denied is Some),
            from_own is Some ==> from_own->0@.len() == n && forall|j: int|
                0 <= j < n ==> from_own->0@[j] == o.reaches(own->0 as int, j, greed as int),
            from_error is Some ==> from_error->0@.len() == n && forall|j: int|
                0 <= j < n ==> from_error->0@[j] == o.reaches(error->0 as int, j, greed as int),
            from_denied is Some ==> from_denied->0@.len() == n && forall|j: int|
                0 <= j < n ==> from_denied->0@[j] == o.reaches(denied->0 as int, j, greed as int),
            forall|j: int| 0 <= j < i ==> flags@[j] == seed_reaches(o, t@, j, greed as int),
        decreases n - i,
    {
        let a: bool = match &from_own {
            Some(v) => v[i],
            None => false,
        };
        let b: bool = match &from_error {
            Some(v) => v[i],
            None => false,
        };
        let c: bool = match &from_denied {
            Some(v) => v[i],
            None => false,
        };
        let hit: bool = a || b || c;
        proof {
            let g = greed as int;
            if a {
                assert(is_seed(o, t@, own->0 as int, g));
                assert(o.reaches(own->0 as int, i as int, g));
            }
            if b {
                assert(is_seed(o, t@, error->0 as int, g));
                assert(o.reaches(error->0 as int, i as int, g));
            }
            if c {
                assert(is_seed(o, t@, denied->0 as int, g));
                assert(o.reaches(denied->0 as int, i as int, g));
            }
            if seed_reaches(o, t@, i as int, g) {
                let s = choose|s: int| is_seed(o, t@, s, g) && #[trigger] o.reaches(s, i as int, g);
                if o.terms@[s]@ == t@ {
                    assert(own is Some);
                    if s != own->0 {
                        if s < own->0 {
                            assert(o.terms@[s]@ != o.terms@[own->0 as int]@);
                        } else {
                            assert(o.terms@[own->0 as int]@ != o.terms@[s]@);
                        }
                    }
                    assert(a);
                } else if negative_prefixed(t@) && g >= 3 && o.terms@[s]@ == "error"@ {
                    assert(error is Some);
                    if s != error->0 {
                        if s < error->0 {
                            assert(o.terms@[s]@ != o.terms@[error->0 as int]@);
                        } else {
                            assert(o.terms@[error->0 as int]@ != o.terms@[s]@);
                        }
                    }
                    assert(b);
                } else {
                    assert(denied is Some);
                    if s != denied->0 {
                        if s < denied->0 {
                            assert(o.terms@[s]@ != o.terms@[denied->0 as int]@);
                        } else {
                            assert(o.terms@[denied->0 as int]@ != o.terms@[s]@);
                        }
                    }
                    assert(c);
                }
            }
        }
        flags.push(hit);
        i += 1;
    }
    flags
}

/// Expands a term at a greed: the distance of every term of the ontology in
/// the expansion, 0 for the terms that do not belong to it.
pub fn expand(o: &Ontology, t: &Vec<char>, greed: u8) -> (dist: Vec<u8>)
    requires
        o.wf(),
    ensures
        dist@.len() == o.terms@.len(),
        forall|i: int|
            0 <= i < dist@.len() ==> dist@[i] as int == term_distance(o, t@, i, greed as int),
{
    let n: usize = o.terms.len();
    let negative: bool = is_negative(t);
    let mut dist: Vec<u8> = Vec::new();
    let mut i: usize = 0;
    while i < n
        invariant
            i <= n,
            dist@.len() == i,
            forall|j: int| 0 <= j < i ==> dist@[j] == 0,
        decreases n - i,
    {
        dist.push(0);
        i += 1;
    }
    let mut level: u8 = 0;
    while level < greed
        invariant
            level <= greed,
            o.wf(),
            n == o.terms@.len(),
            dist@.len() == n,
            negative == negative_prefixed(t@),
            forall|j: int| 0 <= j < n ==> dist@[j] as int == graph_distance(o, t@, j, level as int),
        decreases greed - level,
    {
        level = level + 1;
        let flags = seed_reach(o, t, negative, level);
        let mut j: usize = 0;
        while j < n
            invariant
                j <= n,
                1 <= level <= greed,
                n == o.terms@.len(),
                dist@.len() == n,
                flags@.len() == n,
                forall|k: int|
                    0 <= k < n ==> flags@[k] == seed_reaches(o, t@, k, level as int),
                forall|k: int|
                    0 <= k < j ==> dist@[k] as int == graph_distance(o, t@, k, level as int),
                forall|k: int|
                    j <= k < n ==> dist@[k] as int == graph_distance(o, t@, k, level - 1),
            decreases n - j,
        {
            if dist[j] == 0 && flags[j] {
                dist[j] = level;
            }
            j += 1;
        }
    }
    let mut j: usize = 0;
    while j < n
        invariant
            j <= n,
            level == greed,
            n == o.terms@.len(),
            dist@.len() == n,
            forall|k: int|
                0 <= k < j ==> dist@[k] as int == term_distance(o, t@, k, greed as int),
            forall|k: int|
                j <= k < n ==> dist@[k] as int == graph_distance(o, t@, k, greed as int),
        decreases n - j,
    {
        if greed >= 2 && shares_prefix(t, &o.terms[j]) {
            let p: u8 = if greed < 3 {
                greed
            } else {
                3
            };
            if dist[j] == 0 || p < dist[j] {
                dist[j] = p;
            }
        }
        j += 1;
    }
    dist
}

// ---------------------------------------------------------------------------
// Laws
// ---------------------------------------------------------------------------

/// The starting points and what they reach grow with greed.
pub proof fn lemma_seed_reaches_monotone(o: &Ontology, t: Seq<char>, i: int, g: int, h: int)
    requires
        g <= h,
        seed_reaches(o, t, i, g),
    ensures
        seed_reaches(o, t, i, h),
{
    let s = choose|s: int| is_seed(o, t, s, g) && #[trigger] o.reaches(s, i, g);
    law_reach_monotone(o, s, i, g, h);
    assert(is_seed(o, t, s, h));
}

/// The graph distance is positive exactly if the ontology reaches the term
/// at the given greed, and it never exceeds that greed.
pub proof fn lemma_graph_distance(o: &Ontology, t: Seq<char>, i: int, g: int)
    ensures
        0 <= graph_distance(o, t, i, g),
        graph_distance(o, t, i, g) <= if g > 0 {
            g
        } else {
            0
        },
        graph_distance(o, t, i, g) > 0 <==> g >= 1 && seed_reaches(o, t, i, g),
    decreases g,
{
    if g > 0 {
        lemma_graph_distance(o, t, i, g - 1);
        if graph_distance(o, t, i, g - 1) > 0 {
            lemma_seed_reaches_monotone(o, t, i, g - 1, g);
        }
    }
}

/// A term has a positive distance exactly if it belongs to the expansion.
pub proof fn lemma_distance_expansion(o: &Ontology, t: Seq<char>, i: int, g: int)
    requires
        0 <= i < o.terms@.len(),
    ensures
        term_distance(o, t, i, g) > 0 <==> in_expansion(o, t, i, g),
        0 <= term_distance(o, t, i, g),
{
    lemma_graph_distance(o, t, i, g);
}

/// The expansion grows with greed: a term of the expansion at a greed is a
/// term of the expansion at every higher greed.
pub proof fn law_expansion_monotone(o: &Ontology, t: Seq<char>, i: int, g: int, h: int)
    requires
        g <= h,
        in_expansion(o, t, i, g),
    ensures
        in_expansion(o, t, i, h),
{
    if g >= 1 && seed_reaches(o, t, i, g) {
        lemma_seed_reaches_monotone(o, t, i, g, h);
    }
}

/// At greed 0 the expansion holds no term of the ontology: the term stands
/// for itself alone.
pub proof fn law_expansion_literal(o: &Ontology, t: Seq<char>, i: int)
    ensures
        !in_expansion(o, t, i, 0),
{
}

/// Backwards resolution: if the term at `b` belongs to the expansion of the
/// term at `a` at a greed `g` of at most 10, then the term at `a` belongs to
/// the expansion of the term at `b` at some greed `h` from `g` to 10, namely
/// at 10. This holds of every term at `a` that begins with no negative
/// prefix: what such a prefix adds is searched from `error` and `denied`,
/// which need not lead back.
pub proof fn law_expansion_resolves_backwards(o: &Ontology, a: int, b: int, g: int)
    requires
        o.wf(),
        0 <= a < o.terms@.len(),
        g <= MAX_GREED,
        !negative_prefixed(o.terms@[a]@),
        in_expansion(o, o.terms@[a]@, b, g),
    ensures
        exists|h: int| g <= h <= MAX_GREED && #[trigger] in_expansion(o, o.terms@[b]@, a, h),
{
    let ta = o.terms@[a]@;
    let tb = o.terms@[b]@;
    let top = MAX_GREED as int;
    if g >= 1 && seed_reaches(o, ta, b, g) {
        let s = choose|s: int| is_seed(o, ta, s, g) && #[trigger] o.reaches(s, b, g);
        assert(s == a) by {
            if s < a {
                assert(o.terms@[s]@ != o.terms@[a]@);
            } else if a < s {
                assert(o.terms@[a]@ != o.terms@[s]@);
            }
        }
        law_backwards_resolution(o, a, b, g);
        let h = choose|h: int| g <= h <= MAX_GREED && #[trigger] o.reaches(b, a, h);
        law_reach_monotone(o, b, a, h, top);
        assert(is_seed(o, tb, b, top));
        assert(seed_reaches(o, tb, a, top));
    } else {
        assert(prefix_mate(ta, tb));
        assert(prefix_mate(tb, ta));
    }
    assert(in_expansion(o, tb, a, top));
}

} // verus!
