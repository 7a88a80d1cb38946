//! Compiled patterns: a regular expression of the `regex` crate kept beside
//! the text it was compiled from.

use vstd::prelude::*;

verus! {

#[verifier::external_type_specification]
#[verifier::external_body]
pub struct ExRegex(regex::Regex);

#[verifier::external_type_specification]
#[verifier::external_body]
pub struct ExRegexError(regex::Error);

/// Relies on `regex::Regex::clone`, which the derived `Clone` of
/// `CompiledPattern` calls; nothing is assumed of the copy.
pub assume_specification[ <regex::Regex as Clone>::clone ](re: &regex::Regex) -> regex::Regex;

/// Whether `regex::Regex::new` accepts the text `src`.
pub uninterp spec fn regex_accepts(src: Seq<char>) -> bool;

/// Whether the expression compiled from `src` matches somewhere in `hay`.
pub uninterp spec fn regex_is_match(src: Seq<char>, hay: Seq<char>) -> bool;

/// The capture groups of the first match of the expression compiled from
/// `src` in `hay`, group 0 being the whole match; `None` where there is no
/// match.
pub uninterp spec fn regex_captures(src: Seq<char>, hay: Seq<char>) -> Option<
    Seq<Option<Seq<char>>>,
>;

/// A compiled regular expression together with its text. Only
/// `compile_regex` builds one, so the expression is always the one compiled
/// from the text.
#[derive(Clone, Debug)]
pub struct CompiledPattern {
    source: String,
    re: regex::Regex,
}

/// Relies on `regex::Regex::new`: whether a text compiles depends on the
/// text alone. The compiled expression is stored beside the text.
#[verifier::external_body]
fn compile_regex(src: String) -> (r: Result<CompiledPattern, regex::Error>)
    ensures
        r is Ok <==> regex_accepts(src@),
        r matches Ok(m) ==> m.text() == src@,
{
    match regex::Regex::new(&src) {
        Ok(re) => Ok(CompiledPattern { source: src, re }),
        Err(e) => Err(e),
    }
}

/// Relies on `regex::Regex::is_match`: the answer depends on the
/// expression's text and the haystack alone.
#[verifier::external_body]
fn regex_is_match_call(m: &CompiledPattern, hay: &str) -> (r: bool)
    ensures
        r == regex_is_match(m.text(), hay@),
{
    m.re.is_match(hay)
}

/// Relies on `regex::Regex::captures`: the groups (each present or absent)
/// depend on the expression's text and the haystack alone. Each group is
/// copied into a `String`.
#[verifier::external_body]
fn regex_captures_call(m: &CompiledPattern, hay: &str) -> (r: Option<Vec<Option<String>>>)
    ensures
        r.deep_view() == regex_captures(m.text(), hay@),
{
    m.re.captures(hay).map(|c| c.iter().map(|g| g.map(|x| x.as_str().to_string())).collect())
}

impl CompiledPattern {
    /// The regular expression text this pattern was compiled from.
    pub closed spec fn text(&self) -> Seq<char> {
        self.source@
    }

    /// Compiles `src`; `None` where the `regex` crate rejects it.
    pub fn compile(src: String) -> (r: Option<CompiledPattern>)
        ensures
            r is Some <==> regex_accepts(src@),
            r matches Some(m) ==> m.text() == src@,
    {
        match compile_regex(src) {
            Ok(m) => Some(m),
            Err(_) => None,
        }
    }

    /// The regular expression text.
    pub fn as_str(&self) -> (r: &str)
        ensures
            r@ == self.text(),
    {
        self.source.as_str()
    }

    /// Whether the expression matches `hay`.
    pub fn is_match(&self, hay: &str) -> (r: bool)
        ensures
            r == regex_is_match(self.text(), hay@),
    {
        regex_is_match_call(self, hay)
    }

    /// The capture groups of the first match in `hay`.
    pub fn captures(&self, hay: &str) -> (r: Option<Vec<Option<String>>>)
        ensures
            r.deep_view() == regex_captures(self.text(), hay@),
    {
        regex_captures_call(self, hay)
    }
}

} // verus!
