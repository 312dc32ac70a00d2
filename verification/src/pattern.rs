//! Regular expressions, compiled and matched by the `regex` crate.
use crate::text::Text;
use regex::Regex;
use vstd::prelude::*;

verus! {

/// A compiled regular expression of the `regex` crate. Nothing inside it is
/// known here; `accepted` names what it matches.
#[verifier::external_type_specification]
#[verifier::external_body]
pub struct ExRegex(Regex);

/// The error with which the `regex` crate refuses a pattern. Nothing inside
/// it is known here.
#[verifier::external_type_specification]
#[verifier::external_body]
pub struct ExRegexError(regex::Error);

/// What `Regex::new` makes of a pattern: the set of the texts in which the
/// compiled expression finds a match, or `None` for a pattern that it refuses.
pub uninterp spec fn compiled(pattern: Seq<char>) -> Option<Set<Seq<char>>>;

/// The texts in which a compiled expression finds a match.
pub uninterp spec fn accepted(re: Regex) -> Set<Seq<char>>;

/// `Regex::new` compiles a pattern or refuses it. Which of the two, and what
/// the compiled expression matches, depends on the pattern alone.
pub assume_specification[ Regex::new ](re: &str) -> (r: Result<Regex, regex::Error>)
    ensures
        match r {
            Ok(c) => compiled(re@) == Some(accepted(c)),
            Err(_) => compiled(re@) is None,
        },
;

/// `Regex::is_match` says whether the expression finds a match anywhere in
/// the text.
pub assume_specification[ Regex::is_match ](re: &Regex, haystack: &str) -> (r: bool)
    ensures
        r == accepted(*re).contains(haystack@),
;

/// Whether `pattern` is a regular expression that compiles.
pub open spec fn compiles(pattern: Text) -> bool {
    compiled(pattern) is Some
}

/// Whether `pattern` compiles and finds a match in `text`.
pub open spec fn finds(pattern: Text, text: Text) -> bool {
    compiled(pattern) matches Some(language) && language.contains(text)
}

} // verus!
