//! Match patterns: the regular expressions of the `regex` crate, as far as
//! the probes need them. What the crate computes is named here and believed,
//! not proved.

use regex::Error;
use regex::Regex;
use vstd::prelude::*;

verus! {

/// A compiled regular expression of the `regex` crate, opaque to proofs.
#[verifier::external_type_specification]
#[verifier::external_body]
pub struct ExRegex(Regex);

/// The error with which the `regex` crate refuses a pattern, opaque to
/// proofs.
#[verifier::external_type_specification]
#[verifier::external_body]
pub struct ExError(Error);

/// What `Regex::new` returns for a pattern: the compiled expression, or the
/// error that refuses the pattern.
pub uninterp spec fn compiled(pattern: Seq<char>) -> Result<Regex, Error>;

/// What `Regex::is_match` returns: whether the expression matches anywhere
/// in the text.
pub uninterp spec fn accepts(re: Regex, haystack: Seq<char>) -> bool;

/// `Regex::new` compiles with the crate's default options, so its result,
/// success or error, depends on the pattern text alone. It returns an error
/// for a pattern it refuses and does not panic.
pub assume_specification[ Regex::new ](re: &str) -> (res: Result<Regex, Error>)
    ensures
        res == compiled(re@),
;

/// `Regex::is_match` searches the whole text from its start and reports
/// whether a match exists; the answer depends on the expression and the text
/// alone.
pub assume_specification[ Regex::is_match ](re: &Regex, haystack: &str) -> (res: bool)
    ensures
        res == accepts(*re, haystack@),
;

/// Cloning a `Regex` yields a handle to the same compiled expression.
pub assume_specification[ <Regex as Clone>::clone ](re: &Regex) -> (res: Regex)
    ensures
        res == *re,
;

/// Whether a pattern compiles.
pub open spec fn compiles(pattern: Seq<char>) -> bool {
    compiled(pattern) is Ok
}

/// Whether a pattern compiles and its expression matches somewhere in the
/// text.
pub open spec fn pattern_matches(pattern: Seq<char>, text: Seq<char>) -> bool {
    match compiled(pattern) {
        Ok(re) => accepts(re, text),
        Err(_) => false,
    }
}

} // verus!
