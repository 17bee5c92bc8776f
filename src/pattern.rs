//! Compiled regular expressions, and what the regex engine is relied on for.

use vstd::prelude::*;
use vstd::string::StringSliceAdditionalSpecFns;
use vstd::utf8::is_char_boundary;

verus! {

/// Whether `regex::Regex::new` accepts a pattern source.
pub uninterp spec fn regex_compiles(source: Seq<char>) -> bool;

/// The byte span of the leftmost-first match that `regex::Regex::find`
/// reports for a pattern source on a haystack.
pub uninterp spec fn regex_find(source: Seq<char>, haystack: Seq<char>) -> Option<(usize, usize)>;

/// Whether `regex::Regex::is_match` reports a match of a pattern source
/// anywhere in a haystack.
pub uninterp spec fn regex_is_match(source: Seq<char>, haystack: Seq<char>) -> bool;

/// The compiled regular expression of the regex crate, carried opaquely.
#[verifier::external_type_specification]
#[verifier::external_body]
pub struct ExRegex(regex::Regex);

/// The error the regex crate gives for a pattern it refuses, carried opaquely.
#[verifier::external_type_specification]
#[verifier::external_body]
pub struct ExRegexError(regex::Error);

/// A regular expression together with the source it was compiled from.
/// Values are made only by `compile`, so `compiled` is always the
/// compilation of `source`.
pub struct Pattern {
    source: String,
    compiled: regex::Regex,
}

impl View for Pattern {
    type V = Seq<char>;

    closed spec fn view(&self) -> Seq<char> {
        self.source@
    }
}

/// Relies on `<[&str]>::concat`: the result is the two strings one after the other.
#[verifier::external_body]
pub(crate) fn concat_str(a: &str, b: &str) -> (r: String)
    ensures
        r@ == a@ + b@,
{
    [a, b].concat()
}

/// Relies on `regex::Regex::new`: it accepts or refuses a source depending
/// on the source alone.
#[verifier::external_body]
pub(crate) fn compile(source: String) -> (r: Result<Pattern, regex::Error>)
    ensures
        r is Ok <==> regex_compiles(source@),
        r matches Ok(p) ==> p@ == source@,
{
    match regex::Regex::new(&source) {
        Ok(compiled) => Ok(Pattern { source, compiled }),
        Err(e) => Err(e),
    }
}

/// Relies on `regex::Regex::find` and `regex::Match::{start, end}`: the
/// span is the first match, with `start <= end`, both on character
/// boundaries of the haystack.
#[verifier::external_body]
pub(crate) fn find_first(p: &Pattern, haystack: &str) -> (r: Option<(usize, usize)>)
    ensures
        r == regex_find(p@, haystack@),
        r matches Some((s, e)) ==> s <= e <= haystack.spec_bytes().len()
            && is_char_boundary(haystack.spec_bytes(), s as int)
            && is_char_boundary(haystack.spec_bytes(), e as int),
{
    p.compiled.find(haystack).map(|m| (m.start(), m.end()))
}

/// Relies on `regex::Regex::is_match`: whether the pattern matches anywhere.
#[verifier::external_body]
pub(crate) fn is_match(p: &Pattern, haystack: &str) -> (r: bool)
    ensures
        r == regex_is_match(p@, haystack@),
{
    p.compiled.is_match(haystack)
}

} // verus!
