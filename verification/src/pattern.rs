//! Regular-expression search in a tune's text.
//!
//! A pattern is compiled once and then matched against as many texts as there
//! are. What the regex crate accepts as a pattern, and what a pattern matches,
//! is for that crate to say; both are named here and taken on trust.

use regex::Regex;
use vstd::prelude::*;

verus! {

/// The compiled regular expression of the regex crate.
#[verifier::external_type_specification]
#[verifier::external_body]
pub struct ExRegex(Regex);

/// Whether `Regex::new` of the regex crate accepts `pattern`: the pattern is
/// well formed, and what it compiles to stays within the size that the crate
/// allows by default. In one build of the library this depends on the pattern
/// alone.
pub uninterp spec fn pattern_compiles(pattern: Seq<char>) -> bool;

/// Whether the regular expression `pattern` matches somewhere in `text`, as
/// `Regex::is_match` of the regex crate says for the expression compiled from
/// `pattern`.
pub uninterp spec fn pattern_matches(pattern: Seq<char>, text: Seq<char>) -> bool;

/// A pattern with the expression compiled from it. [`compile`] is the only
/// maker of a `Pattern`, so the expression is always that of the text. The
/// view of a `Pattern` is its text.
pub struct Pattern {
    text: String,
    engine: Regex,
}

impl View for Pattern {
    type V = Seq<char>;

    closed spec fn view(&self) -> Seq<char> {
        self.text@
    }
}

/// Calls `Regex::new`. Trusted: there is a result exactly where the regex crate
/// accepts the pattern, and the result keeps the pattern's text beside the
/// expression compiled from it.
#[verifier::external_body]
pub(crate) fn compile(pattern: &str) -> (r: Option<Pattern>)
    ensures
        r is Some <==> pattern_compiles(pattern@),
        r matches Some(compiled) ==> compiled@ == pattern@,
{
    match Regex::new(pattern) {
        Ok(engine) => Some(Pattern { text: pattern.to_owned(), engine }),
        Err(_) => None,
    }
}

/// Calls `Regex::is_match`. Trusted: the result says whether the pattern
/// matches somewhere in the text.
#[verifier::external_body]
pub(crate) fn found_in(pattern: &Pattern, text: &str) -> (r: bool)
    ensures
        r == pattern_matches(pattern@, text@),
{
    pattern.engine.is_match(text)
}

} // verus!
