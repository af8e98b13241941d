//! Regular expressions, compiled and matched by the `regex` crate.

use vstd::prelude::*;

verus! {

#[verifier::external_type_specification]
#[verifier::external_body]
pub struct ExRegex(regex::Regex);

/// The text is a regular expression that the `regex` crate compiles.
pub uninterp spec fn regex_compiles(pattern: Seq<char>) -> bool;

/// The regular expression `pattern` matches somewhere in `text`, as the
/// `regex` crate decides it.
pub uninterp spec fn regex_accepts(pattern: Seq<char>, text: Seq<char>) -> bool;

/// A compiled regular expression with the text it was compiled from.
pub struct Pattern {
    source: String,
    compiled: regex::Regex,
}

impl Pattern {
    /// The text that the expression was compiled from.
    pub closed spec fn source(&self) -> Seq<char> {
        self.source@
    }

    /// The text that the expression was compiled from.
    pub fn text(&self) -> (r: &String)
        ensures
            r@ == self.source(),
    {
        &self.source
    }
}

/// Compiles a regular expression.
///
/// Trusted: calls `regex::Regex::new`, which gives an error for a text that
/// is no regular expression or that would compile to a program beyond the
/// size limit; the error is turned into `None`. Whether a text compiles
/// depends on the text alone.
#[verifier::external_body]
pub(crate) fn compile(pattern: &str) -> (r: Option<Pattern>)
    ensures
        r is Some == regex_compiles(pattern@),
        r is Some ==> r->0.source() == pattern@,
{
    match regex::Regex::new(pattern) {
        Ok(compiled) => Some(Pattern { source: pattern.to_owned(), compiled }),
        Err(_) => None,
    }
}

/// Tells whether a compiled regular expression matches somewhere in a text.
///
/// Trusted: calls `regex::Regex::is_match`, whose result depends on the
/// expression and the text alone. A `Pattern` is made by [`compile`] only,
/// so its expression is the one compiled from its source.
#[verifier::external_body]
pub(crate) fn is_match(pattern: &Pattern, text: &str) -> (r: bool)
    ensures
        r == regex_accepts(pattern.source(), text@),
{
    pattern.compiled.is_match(text)
}

} // verus!
