//! Regular expressions, as far as scraping a suite's output needs them.

use regex::Regex;
use vstd::prelude::*;
use vstd::string::*;

verus! {

/// The compiled expression of the `regex` crate, opaque here.
#[verifier::external_type_specification]
#[verifier::external_body]
pub struct ExRegex(regex::Regex);

/// The error with which the `regex` crate refuses a pattern, opaque here.
#[verifier::external_type_specification]
#[verifier::external_body]
pub struct ExRegexError(regex::Error);

/// What `regex::Regex::new` makes of a pattern: the compiled expression or an
/// error. The crate's size limit counts memory, so that a pattern close to it may
/// fare otherwise where pointers have another width.
pub uninterp spec fn compiled(pattern: Seq<char>) -> Result<Regex, regex::Error>;

/// The text that the error of a pattern that does not compile displays.
pub uninterp spec fn refusal_text(pattern: Seq<char>) -> Seq<char>;

/// What `regex::Regex::captures_len` counts in a compiled pattern: its capture
/// groups, the implicit one for the whole match among them.
pub uninterp spec fn group_count(pattern: Seq<char>) -> nat;

/// What `regex::Regex::captures_iter` finds with a compiled pattern: the
/// matches in the order found, each with the text of its groups by index, and
/// `None` for a group that took no part in the match.
pub uninterp spec fn all_matches(
    pattern: Seq<char>,
    haystack: Seq<char>,
) -> Seq<Seq<Option<Seq<char>>>>;

/// Calls `regex::Regex::new`. Claims that what it returns depends on the
/// pattern alone.
#[verifier::external_body]
fn regex_new(pattern: &str) -> (r: Result<Regex, regex::Error>)
    ensures
        r == compiled(pattern@),
{
    Regex::new(pattern)
}

/// Calls `to_string` on the `regex::Error` of a pattern. Claims that the text
/// depends on the pattern alone.
#[verifier::external_body]
fn regex_error_text(error: &regex::Error, pattern: &str) -> (r: String)
    requires
        compiled(pattern@) == Err::<Regex, regex::Error>(*error),
    ensures
        r@ == refusal_text(pattern@),
{
    error.to_string()
}

/// Calls `regex::Regex::captures_len`. Claims that the count depends on the
/// pattern alone, and that it is at least one.
#[verifier::external_body]
fn regex_captures_len(regex: &Regex, pattern: &str) -> (r: usize)
    requires
        compiled(pattern@) == Ok::<Regex, regex::Error>(*regex),
    ensures
        r == group_count(pattern@),
        r >= 1,
{
    regex.captures_len()
}

/// Calls `regex::Regex::captures_iter`. Claims that the matches depend on the
/// pattern and the haystack alone, and that each of them lists as many groups
/// as the pattern has.
#[verifier::external_body]
fn regex_captures_iter(regex: &Regex, pattern: &str, haystack: &str) -> (r: Vec<
    Vec<Option<String>>,
>)
    requires
        compiled(pattern@) == Ok::<Regex, regex::Error>(*regex),
    ensures
        r.deep_view() == all_matches(pattern@, haystack@),
        forall|i: int| 0 <= i < r@.len() ==> (#[trigger] r@[i])@.len() == group_count(pattern@),
{
    regex
        .captures_iter(haystack)
        .map(|c| c.iter().map(|g| g.map(|m| m.as_str().to_string())).collect())
        .collect()
}

/// A pattern that compiled, with its source text.
pub struct Pattern {
    source: String,
    regex: Regex,
}

impl View for Pattern {
    type V = Seq<char>;

    closed spec fn view(&self) -> Seq<char> {
        self.source@
    }
}

impl DeepView for Pattern {
    type V = Seq<char>;

    open spec fn deep_view(&self) -> Seq<char> {
        self@
    }
}

impl Pattern {
    #[verifier::type_invariant]
    spec fn compiled_from_source(self) -> bool {
        compiled(self.source@) == Ok::<Regex, regex::Error>(self.regex)
    }

    /// Compiles a pattern, or says why it does not compile.
    pub fn new(source: &str) -> (r: Result<Pattern, String>)
        ensures
            match r {
                Ok(p) => compiled(source@) is Ok && p@ == source@,
                Err(message) => compiled(source@) is Err && message@ == refusal_text(source@),
            },
    {
        match regex_new(source) {
            Ok(regex) => Ok(Pattern { source: source.to_string(), regex }),
            Err(error) => Err(regex_error_text(&error, source)),
        }
    }

    /// The number of capture groups, counting the whole match as one.
    pub fn groups(&self) -> (r: usize)
        ensures
            r == group_count(self@),
            r >= 1,
    {
        proof {
            use_type_invariant(self);
        }
        regex_captures_len(&self.regex, self.source.as_str())
    }

    /// Every match in the haystack, in the order found.
    pub fn matches(&self, haystack: &str) -> (r: Vec<Vec<Option<String>>>)
        ensures
            r.deep_view() == all_matches(self@, haystack@),
            forall|i: int| 0 <= i < r@.len() ==> (#[trigger] r@[i])@.len() == group_count(self@),
    {
        proof {
            use_type_invariant(self);
        }
        regex_captures_iter(&self.regex, self.source.as_str(), haystack)
    }
}

} // verus!
