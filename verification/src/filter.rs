//! Listing name filter.
//!
//! A subscription may carry a pattern; a listing is relevant exactly when the
//! pattern, read as a regular expression, matches somewhere inside the
//! listing's display name (substring search, not anchored). Without a pattern
//! every listing is relevant. Patterns are compiled once, when the
//! subscription is configured; an invalid pattern is rejected there and never
//! reaches a running monitor.

use vstd::prelude::*;

verus! {

/// Declares regex::Regex, the compiled regular expression this module keeps
/// beside its pattern; opaque here.
#[verifier::external_type_specification]
#[verifier::external_body]
pub struct ExRegex(regex::Regex);

/// Declares regex::Error, what regex::Regex::new reports for a rejected
/// pattern; opaque here and mapped to `InvalidPattern`.
#[verifier::external_type_specification]
#[verifier::external_body]
pub struct ExRegexError(regex::Error);

/// Whether `pattern` is a regular expression that the compiler accepts
/// (under its default configuration, so compilation is a function of the
/// pattern alone).
pub uninterp spec fn regex_valid(pattern: Seq<char>) -> bool;

/// Whether the regular expression `pattern` matches anywhere inside `text`.
pub uninterp spec fn regex_accepts(pattern: Seq<char>, text: Seq<char>) -> bool;

/// A pattern kept together with its compiled form. The fields are private and
/// `compile_raw` is the only constructor, so the compiled form always belongs
/// to the stored pattern.
pub struct CompiledPattern {
    pattern: String,
    regex: regex::Regex,
}

/// Relies on regex::Regex::new: it returns Ok exactly for the patterns it
/// accepts, a deterministic function of the pattern under the default
/// builder.
#[verifier::external_body]
fn compile_raw(pattern: &str) -> (r: Result<CompiledPattern, regex::Error>)
    ensures
        r is Ok <==> regex_valid(pattern@),
        r matches Ok(p) ==> p.pattern@ == pattern@,
{
    regex::Regex::new(pattern).map(|regex| CompiledPattern { pattern: pattern.to_owned(), regex })
}

/// Relies on regex::Regex::is_match: true exactly when the regex matches
/// anywhere in the text, a function of the compiled pattern and the text.
#[verifier::external_body]
fn is_match_raw(p: &CompiledPattern, text: &str) -> (r: bool)
    ensures
        r == regex_accepts(p.pattern@, text@),
{
    p.regex.is_match(text)
}

/// Configuration failure: the supplied filter pattern is not a valid regular
/// expression.
#[derive(Clone, Copy, PartialEq, Eq, Structural, Debug)]
pub struct InvalidPattern;

impl CompiledPattern {
    /// The pattern this filter was compiled from.
    pub closed spec fn pattern(&self) -> Seq<char> {
        self.pattern@
    }

    /// Compile `pattern`; rejected exactly when the regular expression
    /// compiler rejects it.
    pub fn new(pattern: &str) -> (r: Result<CompiledPattern, InvalidPattern>)
        ensures
            r is Ok <==> regex_valid(pattern@),
            r matches Ok(p) ==> p.pattern() == pattern@,
    {
        match compile_raw(pattern) {
            Ok(p) => Ok(p),
            Err(_) => Err(InvalidPattern),
        }
    }

    /// Whether this filter accepts `text`.
    pub fn is_match(&self, text: &str) -> (r: bool)
        ensures
            r == regex_accepts(self.pattern(), text@),
    {
        is_match_raw(self, text)
    }

    /// The pattern this filter was compiled from, as text.
    pub fn as_str(&self) -> (r: &str)
        ensures
            r@ == self.pattern(),
    {
        self.pattern.as_str()
    }
}

/// What an optional filter accepts: everything when absent, else what the
/// pattern matches.
pub open spec fn accepts(pattern: Option<Seq<char>>, text: Seq<char>) -> bool {
    match pattern {
        None => true,
        Some(p) => regex_accepts(p, text),
    }
}

/// The pattern of an optional filter.
pub open spec fn pattern_of(filter: Option<CompiledPattern>) -> Option<Seq<char>> {
    match filter {
        None => None,
        Some(p) => Some(p.pattern()),
    }
}

/// Whether an optional filter accepts `text`.
pub fn filter_accepts(filter: &Option<CompiledPattern>, text: &str) -> (r: bool)
    ensures
        r == accepts(pattern_of(*filter), text@),
{
    match filter {
        None => true,
        Some(p) => p.is_match(text),
    }
}

} // verus!
