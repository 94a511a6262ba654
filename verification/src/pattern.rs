//! Regular expressions, through the `regex` crate.
//!
//! What a regular expression matches takes pages to state, so the results of
//! `Regex::new`, `Regex::find` and `Regex::captures` are named here: each is a
//! function of the pattern text and the searched text alone.
use vstd::prelude::*;

verus! {

#[verifier::external_type_specification]
#[verifier::external_body]
pub struct ExRegex(regex::Regex);

/// What `regex::Regex::new(pattern)` gives: `None` when the pattern compiles,
/// `Some(message)` with the text of the error otherwise.
pub uninterp spec fn regex_new_result(pattern: Seq<char>) -> Option<Seq<char>>;

/// What `Regex::find` gives on `haystack` for the regex compiled from
/// `pattern`: the byte offset where the leftmost-first match starts.
pub uninterp spec fn regex_find_start(pattern: Seq<char>, haystack: Seq<char>) -> Option<usize>;

/// What `Regex::captures` gives on `haystack` for the regex compiled from
/// `pattern`: for each group, in the order of the opening parentheses and
/// with the whole match first, the text it matched if it took part.
pub uninterp spec fn regex_capture_groups(pattern: Seq<char>, haystack: Seq<char>) -> Option<
    Seq<Option<Seq<char>>>,
>;

/// A compiled regular expression, together with the pattern it came from.
pub struct Pattern {
    re: regex::Regex,
    source: String,
}

impl View for Pattern {
    type V = Seq<char>;

    closed spec fn view(&self) -> Seq<char> {
        self.source@
    }
}

impl Pattern {
    /// Compiles `pattern`; on failure, the text of the error.
    pub fn new(pattern: &str) -> (r: Result<Pattern, String>)
        ensures
            match r {
                Ok(p) => regex_new_result(pattern@) is None && p@ == pattern@,
                Err(e) => regex_new_result(pattern@) == Some(e@),
            },
    {
        compile(pattern)
    }
}

/// The views of a list of optional strings.
pub open spec fn opt_views(v: Seq<Option<String>>) -> Seq<Option<Seq<char>>> {
    v.map_values(
        |o: Option<String>|
            match o {
                Some(s) => Some(s@),
                None => None,
            },
    )
}

/// Calls `regex::Regex::new`. On success the result remembers `pattern`; on
/// failure it carries the error's text. The contract claims that the outcome
/// is `regex_new_result(pattern)`, and nothing more.
#[verifier::external_body]
fn compile(pattern: &str) -> (r: Result<Pattern, String>)
    ensures
        match r {
            Ok(p) => regex_new_result(pattern@) is None && p@ == pattern@,
            Err(e) => regex_new_result(pattern@) == Some(e@),
        },
{
    match regex::Regex::new(pattern) {
        Ok(re) => Ok(Pattern { re, source: pattern.to_string() }),
        Err(e) => Err(e.to_string()),
    }
}

/// Calls `Regex::find` and returns `Match::start`. The contract claims that
/// the result is `regex_find_start(p@, haystack@)`, and, as the crate
/// documents, that the offset lies within the haystack (whose length Rust
/// bounds by `isize::MAX`), so it is below `usize::MAX`.
#[verifier::external_body]
pub(crate) fn find_start(p: &Pattern, haystack: &str) -> (r: Option<usize>)
    ensures
        r == regex_find_start(p@, haystack@),
        r matches Some(s) ==> s < usize::MAX,
{
    p.re.find(haystack).map(|m| m.start())
}

/// Calls `Regex::captures` and copies out the text of every group through
/// `Captures::iter`. The contract claims that the result is
/// `regex_capture_groups(p@, haystack@)`, and nothing more.
#[verifier::external_body]
pub(crate) fn capture_groups(p: &Pattern, haystack: &str) -> (r: Option<Vec<Option<String>>>)
    ensures
        match r {
            Some(v) => regex_capture_groups(p@, haystack@) == Some(opt_views(v@)),
            None => regex_capture_groups(p@, haystack@) is None,
        },
{
    p.re.captures(haystack).map(|c| c.iter().map(|m| m.map(|m| m.as_str().to_string())).collect())
}

} // verus!
