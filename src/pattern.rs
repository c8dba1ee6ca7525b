//! Compiled regular expressions that remember the source they came from.

use vstd::prelude::*;

verus! {

#[verifier::external_type_specification]
#[verifier::external_body]
pub struct ExRegex(regex::Regex);

#[verifier::external_type_specification]
#[verifier::external_body]
pub struct ExRegexError(regex::Error);

/// Whether `pattern` is accepted by the regex engine with its default limits.
pub uninterp spec fn pattern_compiles(pattern: Seq<char>) -> bool;

/// Whether `pattern` matches anywhere within `text`.
pub uninterp spec fn pattern_matches(pattern: Seq<char>, text: Seq<char>) -> bool;

/// `text` with the leftmost-first match of `pattern` replaced by `template`,
/// where `$N` and `$name` expand to capture groups.
pub uninterp spec fn pattern_replace(pattern: Seq<char>, text: Seq<char>, template: Seq<char>) -> Seq<char>;

/// Relies on regex::Regex::new: it fails exactly on the patterns that the
/// engine does not accept.
pub assume_specification[ regex::Regex::new ](re: &str) -> (r: Result<regex::Regex, regex::Error>)
    ensures
        r.is_ok() == pattern_compiles(re@),
;

/// A regular expression together with the text it was compiled from.
///
/// The fields are private: a `Pattern` is only made by `Pattern::new`, so its
/// regex is always the compilation of its source.
pub struct Pattern {
    source: String,
    regex: regex::Regex,
}

impl View for Pattern {
    type V = Seq<char>;

    closed spec fn view(&self) -> Seq<char> {
        self.source@
    }
}

/// Relies on regex::Regex::is_match: true iff there is a match anywhere in
/// the haystack.
#[verifier::external_body]
fn regex_is_match(p: &Pattern, text: &str) -> (r: bool)
    ensures
        r == pattern_matches(p@, text@),
{
    p.regex.is_match(text)
}

/// Relies on regex::Regex::replace: the leftmost-first match is replaced,
/// and a haystack without a match comes back unchanged.
#[verifier::external_body]
fn regex_replace(p: &Pattern, text: &str, template: &String) -> (r: String)
    ensures
        r@ == pattern_replace(p@, text@, template@),
        !pattern_matches(p@, text@) ==> r@ == text@,
{
    p.regex.replace(text, template).into_owned()
}

impl Pattern {
    /// Compiles `source`; fails exactly when the engine rejects it.
    pub fn new(source: &str) -> (r: Result<Pattern, regex::Error>)
        ensures
            r.is_ok() == pattern_compiles(source@),
            r is Ok ==> r->Ok_0@ == source@,
    {
        match regex::Regex::new(source) {
            Ok(regex) => Ok(Pattern { source: source.to_owned(), regex }),
            Err(e) => Err(e),
        }
    }

    /// The text this pattern was compiled from.
    pub fn as_str(&self) -> (r: &str)
        ensures
            r@ == self@,
    {
        self.source.as_str()
    }

    /// Whether the pattern matches anywhere within `text`.
    pub fn is_match(&self, text: &str) -> (r: bool)
        ensures
            r == pattern_matches(self@, text@),
    {
        regex_is_match(self, text)
    }

    /// Replaces the first match in `text` with the expanded `template`.
    pub fn replace(&self, text: &str, template: &String) -> (r: String)
        ensures
            r@ == pattern_replace(self@, text@, template@),
            !pattern_matches(self@, text@) ==> r@ == text@,
    {
        regex_replace(self, text, template)
    }
}

} // verus!
