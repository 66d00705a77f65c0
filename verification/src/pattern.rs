//! Patterns of text: regular expressions of the `regex` crate.

use vstd::prelude::*;

verus! {

/// A compiled regular expression, `regex::Regex`.
#[verifier::external_type_specification]
#[verifier::external_body]
pub struct ExRegex(regex::Regex);

/// Why a regular expression does not compile, `regex::Error`.
#[verifier::external_type_specification]
#[verifier::external_body]
pub struct ExRegexError(regex::Error);

/// Whether a compiled regular expression matches somewhere in the text.
pub uninterp spec fn regex_matches(regex: regex::Regex, text: Seq<char>) -> bool;

/// Whether the regular expression that this pattern compiles to, with the
/// default options, matches somewhere in the text.
pub uninterp spec fn pattern_matches(pattern: Seq<char>, text: Seq<char>) -> bool;

/// Whether the pattern is refused for no other reason than its compiled size:
/// it is a regular expression in the syntax of the crate, with no more groups
/// and states than can be numbered.
pub uninterp spec fn pattern_parses(pattern: Seq<char>) -> bool;

/// Whether an error says that a regular expression is too big once compiled.
pub uninterp spec fn is_size_error(error: regex::Error) -> bool;

/// Whether this error is one with which the pattern can be refused, be it on
/// one machine only.
pub uninterp spec fn may_refuse(pattern: Seq<char>, error: regex::Error) -> bool;

/// The words in which an error is displayed.
pub uninterp spec fn regex_error_text(error: regex::Error) -> Seq<char>;

/// `regex::Regex::new`: where it succeeds, the pattern parses and the result
/// matches what the pattern matches. It refuses every pattern that does not
/// parse, and one that does only for its compiled size; the error is one of
/// this pattern. Which patterns are too
/// big is left unsaid: the limit is in bytes, which depend on the machine.
#[verifier::external_body]
pub(crate) fn compile(pattern: &str) -> (result: Result<regex::Regex, regex::Error>)
    ensures
        match result {
            Ok(regex) => pattern_parses(pattern@) && forall|text: Seq<char>| #[trigger]
                regex_matches(regex, text) == pattern_matches(pattern@, text),
            Err(fault) => may_refuse(pattern@, fault) && is_size_error(fault) == pattern_parses(
                pattern@,
            ),
        },
{
    regex::Regex::new(pattern)
}

/// `regex::Error::CompiledTooBig`: whether the error is of this variant.
#[verifier::external_body]
fn too_big(error: &regex::Error) -> (size: bool)
    ensures
        size == is_size_error(*error),
{
    match error {
        regex::Error::CompiledTooBig(_) => true,
        _ => false,
    }
}

/// Whether the pattern parses, be it too big to compile or not.
pub fn parses(pattern: &str) -> (valid: bool)
    ensures
        valid == pattern_parses(pattern@),
{
    match compile(pattern) {
        Ok(_) => true,
        Err(fault) => too_big(&fault),
    }
}

/// `regex::Regex::is_match`: whether the expression matches somewhere in the
/// text.
#[verifier::external_body]
pub(crate) fn is_match(regex: &regex::Regex, text: &str) -> (found: bool)
    ensures
        found == regex_matches(*regex, text@),
{
    regex.is_match(text)
}

/// `regex::Error` displayed as text.
#[verifier::external_body]
pub(crate) fn error_text(error: &regex::Error) -> (text: String)
    ensures
        text@ == regex_error_text(*error),
{
    error.to_string()
}

} // verus!
