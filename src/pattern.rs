//! Regular-expression patterns matched against frame names.

use vstd::prelude::*;

verus! {

/// Makes `regex::Regex` known to the verifier as an opaque value.
#[verifier::external_type_specification]
#[verifier::external_body]
pub struct ExRegex(regex::Regex);

/// Makes `regex::Error` known to the verifier as an opaque value.
#[verifier::external_type_specification]
#[verifier::external_body]
pub struct ExRegexError(regex::Error);

/// Whether `pattern` is accepted by `regex::Regex::new`.
pub uninterp spec fn regex_compiles(pattern: Seq<char>) -> bool;

/// Whether the regex compiled from `pattern` has a match anywhere in `haystack`.
pub uninterp spec fn regex_is_match(pattern: Seq<char>, haystack: Seq<char>) -> bool;

/// Relies on `regex::Regex::new`: it succeeds exactly on the patterns that
/// compile, which depends on the pattern text alone.
#[verifier::external_body]
fn compile_regex(source: &str) -> (r: Result<regex::Regex, regex::Error>)
    ensures
        r is Ok <==> regex_compiles(source@),
{
    regex::Regex::new(source)
}

/// Relies on `regex::Error`'s `Display` impl, for a human-readable cause.
#[verifier::external_body]
fn regex_error_text(e: &regex::Error) -> (r: String) {
    e.to_string()
}

/// Relies on `regex::Regex::is_match`: true iff the regex matches somewhere in
/// the haystack. `p.regex` was compiled from `p.source` (only `Pattern::new`
/// builds a `Pattern`), so the answer depends on `p.source` and `haystack`.
#[verifier::external_body]
fn regex_match(p: &Pattern, haystack: &str) -> (r: bool)
    ensures
        r == regex_is_match(p.source@, haystack@),
{
    p.regex.is_match(haystack)
}

/// A compiled regular expression together with the text it was compiled from.
pub struct Pattern {
    source: String,
    regex: regex::Regex,
}

/// Why a pattern could not be compiled.
#[derive(Debug)]
pub struct PatternError {
    pub pattern: String,
    pub reason: String,
}

impl View for Pattern {
    type V = Seq<char>;

    closed spec fn view(&self) -> Seq<char> {
        self.source@
    }
}

/// Whether pattern `p` matches the frame name `name`.
pub open spec fn name_matches(p: Seq<char>, name: Seq<char>) -> bool {
    regex_is_match(p, name)
}

impl Pattern {
    /// Compiles `source`; fails exactly when the regex engine rejects it.
    pub fn new(source: &str) -> (r: Result<Pattern, PatternError>)
        ensures
            r is Ok <==> regex_compiles(source@),
            r matches Ok(p) ==> p@ == source@,
            r matches Err(e) ==> e.pattern@ == source@,
    {
        match compile_regex(source) {
            Ok(regex) => Ok(Pattern { source: source.to_owned(), regex }),
            Err(e) => Err(PatternError { pattern: source.to_owned(), reason: regex_error_text(&e) }),
        }
    }

    /// The text the pattern was compiled from.
    pub fn as_str(&self) -> (r: &str)
        ensures
            r@ == self@,
    {
        self.source.as_str()
    }

    /// Whether the pattern matches somewhere in `name`.
    pub fn is_match(&self, name: &str) -> (r: bool)
        ensures
            r == name_matches(self@, name@),
    {
        regex_match(self, name)
    }
}

} // verus!
