//! Trusted boundary to the text-pattern capabilities the engine consumes:
//! regex compilation and matching, and Unicode case folding.
//!
//! The engine never inspects a compiled matcher; it only needs to know which
//! patterns compile and what matching them returns, and both are functions of
//! the pattern, the case-sensitivity flag and the text alone.

use vstd::prelude::*;

verus! {

/// Whether the pattern matcher accepts `pattern` (under the given case mode)
/// as a valid pattern within its size limits.
pub uninterp spec fn regex_accepts(pattern: Seq<char>, case_insensitive: bool) -> bool;

/// What matching the compiled form of `pattern` against `text` returns.
pub uninterp spec fn regex_matches(
    pattern: Seq<char>,
    case_insensitive: bool,
    text: Seq<char>,
) -> bool;

/// Relies on regex::RegexBuilder::new(..).case_insensitive(..).build(): it
/// returns a compiled matcher exactly when the pattern is valid and within
/// the size limits, and a human-readable message otherwise; the outcome is a
/// function of the pattern and the flag.
#[verifier::external_body]
pub(crate) fn try_compile(pattern: &str, case_insensitive: bool) -> (r: Result<(), String>)
    ensures
        r is Ok <==> regex_accepts(pattern@, case_insensitive),
{
    match regex::RegexBuilder::new(pattern).case_insensitive(case_insensitive).build() {
        Ok(_) => Ok(()),
        Err(e) => Err(e.to_string()),
    }
}

/// Relies on regex::Regex::is_match on a matcher built by
/// regex::RegexBuilder::new(..).case_insensitive(..).build(); building is a
/// function of the pattern and the flag, so the call rebuilds the matcher and
/// returns None exactly when the pattern does not compile.
#[verifier::external_body]
pub(crate) fn regex_match(pattern: &str, case_insensitive: bool, text: &str) -> (r: Option<bool>)
    ensures
        r is Some <==> regex_accepts(pattern@, case_insensitive),
        r is Some ==> r->0 == regex_matches(pattern@, case_insensitive, text@),
{
    match regex::RegexBuilder::new(pattern).case_insensitive(case_insensitive).build() {
        Ok(re) => Some(re.is_match(text)),
        Err(_) => None,
    }
}

/// What str::to_lowercase returns: it depends on the characters alone.
pub uninterp spec fn lower_of(s: Seq<char>) -> Seq<char>;

/// Relies on str::to_lowercase: the result is a function of the characters
/// alone, and lowercasing the empty string yields the empty string.
#[verifier::external_body]
pub(crate) fn to_lowercase(s: &str) -> (r: String)
    ensures
        r@ == lower_of(s@),
        s@.len() == 0 ==> r@.len() == 0,
{
    s.to_lowercase()
}

} // verus!
