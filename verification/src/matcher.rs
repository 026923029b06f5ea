//! The boundary to the regular-expression engine.  The engine itself is
//! not verified: what a pattern matches and what a replacement produces are
//! named by uninterpreted functions, and the wrappers below are trusted to
//! return exactly those values.

use vstd::prelude::*;

verus! {

// The `regex::bytes::Regex` type is opaque to the verifier; values of it are
// only ever created by `Matcher::compile_case_insensitive` below and carried
// around inside a `Matcher`.
#[verifier::external_type_specification]
#[verifier::external_body]
pub struct ExRegex(regex::bytes::Regex);

/// Whether `pattern` is accepted by the regex compiler: the bytes form valid
/// UTF-8, the text is a well-formed pattern, and the compiled program stays
/// within the compiler's default size limit.  All three are functions of the
/// pattern alone.
pub uninterp spec fn regex_pattern_ok(pattern: Seq<u8>) -> bool;

/// Whether the case-insensitive pattern matches somewhere in the haystack.
pub uninterp spec fn regex_match(pattern: Seq<u8>, haystack: Seq<u8>) -> bool;

/// The haystack with every leftmost, non-overlapping match of the
/// case-insensitive pattern replaced by the replacement template (in which
/// `$0`, `${name}` and the like refer to capture groups of the match).
pub uninterp spec fn regex_replace(pattern: Seq<u8>, replacement: Seq<u8>, haystack: Seq<u8>) -> Seq<
    u8,
>;

/// A compiled case-insensitive pattern together with its source text.
///
/// The two fields are tied to one another: the only constructor is
/// `compile_case_insensitive`, which compiles exactly the pattern it stores.
#[derive(Debug)]
pub struct Matcher {
    pattern: Vec<u8>,
    regex: regex::bytes::Regex,
}

impl View for Matcher {
    type V = Seq<u8>;

    closed spec fn view(&self) -> Seq<u8> {
        self.pattern@
    }
}

impl Matcher {
    /// Relies on `regex::bytes::RegexBuilder`: `build` returns `Ok` exactly
    /// when the pattern text is a valid pattern within the default size
    /// limit, which is a function of the pattern bytes alone.
    #[verifier::external_body]
    pub(crate) fn compile_case_insensitive(pattern: &Vec<u8>) -> (r: Option<Matcher>)
        ensures
            (r is Some) == regex_pattern_ok(pattern@),
            r matches Some(m) ==> m@ == pattern@,
    {
        let text = match core::str::from_utf8(pattern.as_slice()) {
            Ok(t) => t,
            Err(_) => {
                return None;
            },
        };
        match regex::bytes::RegexBuilder::new(text).case_insensitive(true).build() {
            Ok(regex) => Some(Matcher { pattern: pattern.clone(), regex }),
            Err(_) => None,
        }
    }

    /// The pattern this matcher was compiled from.
    pub fn pattern(&self) -> (r: &Vec<u8>)
        ensures
            r@ == self@,
    {
        &self.pattern
    }

    /// Relies on `regex::bytes::Regex::is_match`: true if and only if the
    /// pattern matches somewhere in the haystack.
    #[verifier::external_body]
    pub(crate) fn is_match(&self, haystack: &Vec<u8>) -> (r: bool)
        ensures
            r == regex_match(self@, haystack@),
    {
        self.regex.is_match(haystack.as_slice())
    }

    /// Relies on `regex::bytes::Regex::replace_all`: replaces every
    /// leftmost, non-overlapping match with the expanded replacement
    /// template; with no match the haystack comes back unchanged.
    #[verifier::external_body]
    pub(crate) fn replace_all(&self, haystack: &Vec<u8>, replacement: &Vec<u8>) -> (r: Vec<u8>)
        ensures
            r@ == regex_replace(self@, replacement@, haystack@),
            !regex_match(self@, haystack@) ==> r@ == haystack@,
    {
        self.regex.replace_all(haystack.as_slice(), replacement.as_slice()).into_owned()
    }
}

} // verus!
