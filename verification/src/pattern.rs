//! Regular expressions, as far as the parsers use them.
//!
//! Matching is done by the `regex` crate. What a pattern accepts is not
//! restated here: the contracts below give the crate's answers a name, so
//! that the callers' contracts can say exactly which answers they rest on.
//! The rest of the library holds compiled expressions as `Pattern`, which
//! only `Pattern::compile` fills, so that every expression it matches with
//! was compiled from a known text under the default options.

use regex::Regex;
use vstd::prelude::*;

verus! {

/// `regex::Regex`, a compiled expression. Nothing of its inside is known
/// here.
#[verifier::external_type_specification]
#[verifier::external_body]
pub struct ExRegex(regex::Regex);

/// `regex::Error`, the reason a pattern was rejected. Nothing of its inside
/// is known here.
#[verifier::external_type_specification]
#[verifier::external_body]
pub struct ExRegexError(regex::Error);

/// What a compiled expression was built from: the pattern text together
/// with the options it was compiled under. For an expression that
/// `Regex::new` compiled, which uses the default options, this is the pattern
/// text itself. Of an expression made in another way it is left open: it is
/// whatever text stands for that pattern under those options.
pub uninterp spec fn pattern_source(re: Regex) -> Seq<char>;

/// Whether the pattern compiler, under its default options and limits,
/// accepts `pattern`.
pub uninterp spec fn pattern_accepted(pattern: Seq<char>) -> bool;

/// Whether `pattern`, compiled under the default options, has a match
/// anywhere in `text`.
pub uninterp spec fn pattern_matches(pattern: Seq<char>, text: Seq<char>) -> bool;

/// The text of the first capture group in the leftmost match of `pattern`,
/// compiled under the default options, in `text`, if there is a match and
/// the group took part in it.
pub uninterp spec fn first_capture(pattern: Seq<char>, text: Seq<char>) -> Option<Seq<char>>;

/// `Regex::new` compiles a pattern under the default options and limits, or
/// rejects it. Whether it accepts a pattern depends on the pattern text
/// alone. The expression it gives was built from that text.
pub assume_specification[ Regex::new ](re: &str) -> (r: Result<Regex, regex::Error>)
    ensures
        r is Ok <==> pattern_accepted(re@),
        r matches Ok(compiled) ==> pattern_source(compiled) == re@,
;

/// `Regex::is_match` reports whether the expression matches anywhere in the
/// haystack. The answer depends on what the expression was built from and
/// on the haystack alone.
pub assume_specification[ Regex::is_match ](re: &Regex, haystack: &str) -> (b: bool)
    ensures
        b == pattern_matches(pattern_source(*re), haystack@),
;

/// `Regex::captures` followed by `Captures::get(1)`: the text of the first
/// capture group of the leftmost match, absent when there is no match or the
/// group did not take part. The answer depends on what the expression was
/// built from and on the haystack alone.
#[verifier::external_body]
fn capture_first(re: &Regex, text: &str) -> (r: Option<String>)
    ensures
        match r {
            Some(group) => first_capture(pattern_source(*re), text@) == Some(group@),
            None => first_capture(pattern_source(*re), text@) is None,
        },
{
    re.captures(text).and_then(|found| found.get(1)).map(|group| group.as_str().to_string())
}

/// A pattern that the pattern compiler accepted, compiled under the default
/// options. Only `Pattern::compile` makes one.
pub struct Pattern {
    compiled: Regex,
}

impl Pattern {
    /// The pattern text that was compiled.
    pub closed spec fn source(&self) -> Seq<char> {
        pattern_source(self.compiled)
    }

    /// Compiles `text`: a pattern exactly when the pattern compiler accepts
    /// the text, and then the pattern of that text.
    pub fn compile(text: &str) -> (r: Option<Pattern>)
        ensures
            r is Some <==> pattern_accepted(text@),
            r matches Some(pattern) ==> pattern.source() == text@,
    {
        match Regex::new(text) {
            Ok(compiled) => Some(Pattern { compiled }),
            Err(_) => None,
        }
    }

    /// Whether the pattern has a match anywhere in `text`.
    pub fn is_match(&self, text: &str) -> (b: bool)
        ensures
            b == pattern_matches(self.source(), text@),
    {
        self.compiled.is_match(text)
    }

    /// The text of the first capture group in the leftmost match of the
    /// pattern in `text`, if there is a match and the group took part in it.
    pub fn first_group(&self, text: &str) -> (r: Option<String>)
        ensures
            match r {
                Some(group) => first_capture(self.source(), text@) == Some(group@),
                None => first_capture(self.source(), text@) is None,
            },
    {
        capture_first(&self.compiled, text)
    }
}

} // verus!
