//! Compiled origin patterns: a regex, with the pattern text it was compiled
//! from when this module compiled it.
use vstd::prelude::*;
use regex_automata::meta::{BuildError, Regex};

verus! {

#[verifier::external_type_specification]
#[verifier::external_body]
pub struct ExRegex(Regex);

#[verifier::external_type_specification]
#[verifier::external_body]
pub struct ExBuildError(BuildError);

/// `Clone` for `meta::Regex` from regex-automata. Nothing is claimed of the
/// copy.
pub assume_specification[<Regex as Clone>::clone](re: &Regex) -> Regex;

/// Whether regex-automata's `meta::Regex::new` accepts `pattern`.
pub uninterp spec fn regex_builds(pattern: Seq<char>) -> bool;

/// Whether the regex that regex-automata's `meta::Regex::new` builds from
/// `pattern` matches (anywhere) the UTF-8 bytes of `haystack`.
pub uninterp spec fn pattern_matches(pattern: Seq<char>, haystack: Seq<char>) -> bool;

/// A compiled regex. Its text is recorded only by
/// [`CompiledPattern::compile`], which stores the very text it handed to
/// `meta::Regex::new`; a regex taken from the caller has none. The fields are
/// private to this module, so the text always belongs to the regex beside it.
#[derive(Clone, Debug)]
pub struct CompiledPattern {
    regex: Regex,
    source: Option<String>,
}

impl View for CompiledPattern {
    type V = Option<Seq<char>>;

    /// The text the regex was compiled from, where it is known.
    closed spec fn view(&self) -> Option<Seq<char>> {
        match self.source {
            Some(s) => Some(s@),
            None => None,
        }
    }
}

impl CompiledPattern {
    /// A regex compiled elsewhere; its text is not known.
    pub fn from_regex(regex: Regex) -> (r: Self)
        ensures
            r@ is None,
    {
        CompiledPattern { regex, source: None }
    }

    /// `meta::Regex::new` from regex-automata. Claimed: whether it succeeds
    /// depends on the pattern alone, and is named `regex_builds`; the result
    /// records `pattern` as its text.
    #[verifier::external_body]
    pub(crate) fn compile(pattern: &str) -> (r: Result<Self, BuildError>)
        ensures
            r.is_ok() == regex_builds(pattern@),
            r matches Ok(c) ==> c@ == Some(pattern@),
    {
        match Regex::new(pattern) {
            Ok(regex) => Ok(CompiledPattern { regex, source: Some(pattern.to_owned()) }),
            Err(err) => Err(err),
        }
    }

    /// The regex.
    pub fn regex(&self) -> (r: &Regex) {
        &self.regex
    }
}

/// `meta::Regex::is_match` from regex-automata, on the UTF-8 bytes of
/// `haystack`. Claimed: for a regex compiled from a known text, the answer
/// depends on that text and the haystack alone, and is named
/// `pattern_matches`. Of a regex taken from the caller nothing is claimed.
#[verifier::external_body]
pub(crate) fn pattern_is_match(p: &CompiledPattern, haystack: &str) -> (r: bool)
    ensures
        p@ matches Some(s) ==> r == pattern_matches(s, haystack@),
{
    p.regex.is_match(haystack.as_bytes())
}

impl std::ops::Deref for CompiledPattern {
    type Target = Regex;

    /// The regex.
    fn deref(&self) -> (r: &Regex) {
        &self.regex
    }
}

} // verus!
