//! The boundary to the regular-expression engine.  Everything the library
//! states about regular expressions is stated over three named results:
//! whether a pattern compiles, whether it matches a line, and the spans of
//! its non-overlapping matches in a line.  Each name is a function of the
//! pattern text, the case flag and the line alone; the `regex` crate's
//! compiler and searcher are deterministic in these inputs.
use vstd::prelude::*;

verus! {

/// Whether `regex::RegexBuilder::build` accepts the pattern, with case
/// folding switched as given.
pub uninterp spec fn regex_compiles(pattern: Seq<char>, ignore_case: bool) -> bool;

/// What `regex::Regex::is_match` returns for a line, for the regex built
/// from the pattern with case folding switched as given.
pub uninterp spec fn regex_accepts(pattern: Seq<char>, ignore_case: bool, line: Seq<char>) -> bool;

/// The byte spans `regex::Regex::find_iter` reports in a line, leftmost
/// first and non-overlapping, for the regex built from the pattern.
pub uninterp spec fn regex_spans(pattern: Seq<char>, ignore_case: bool, line: Seq<char>) -> Seq<
    (usize, usize),
>;

#[verifier::external_type_specification]
#[verifier::external_body]
pub struct ExRegexError(regex::Error);

/// Relies on `regex::RegexBuilder::build`: whether a pattern compiles is a
/// function of the pattern text and the builder's options, of which only
/// case-insensitivity is varied here.
#[verifier::external_body]
pub(crate) fn check_pattern(pattern: &str, ignore_case: bool) -> (r: Result<(), regex::Error>)
    ensures
        r is Ok <==> regex_compiles(pattern@, ignore_case),
{
    regex::RegexBuilder::new(pattern).case_insensitive(ignore_case).build().map(|_| ())
}

/// Relies on `regex::Regex::is_match`: whether a compiled regex matches a
/// haystack is a function of the pattern, its options and the haystack.
#[verifier::external_body]
pub(crate) fn regex_line_match(pattern: &str, ignore_case: bool, line: &str) -> (r: bool)
    requires
        regex_compiles(pattern@, ignore_case),
    ensures
        r == regex_accepts(pattern@, ignore_case, line@),
{
    match regex::RegexBuilder::new(pattern).case_insensitive(ignore_case).build() {
        Ok(re) => re.is_match(line),
        Err(_) => false,
    }
}

/// Relies on `regex::Regex::find_iter`: the spans of the non-overlapping,
/// leftmost-first matches are a function of the pattern, its options and
/// the haystack.
#[verifier::external_body]
pub(crate) fn regex_line_spans(pattern: &str, ignore_case: bool, line: &str) -> (r: Vec<
    (usize, usize),
>)
    requires
        regex_compiles(pattern@, ignore_case),
    ensures
        r@ == regex_spans(pattern@, ignore_case, line@),
{
    match regex::RegexBuilder::new(pattern).case_insensitive(ignore_case).build() {
        Ok(re) => re.find_iter(line).map(|m| (m.start(), m.end())).collect(),
        Err(_) => Vec::new(),
    }
}

/// Relies on `regex::Error`'s `Display` implementation for the compiler's
/// diagnostic text; nothing is claimed of the text.
#[verifier::external_body]
pub(crate) fn pattern_error_text(e: &regex::Error) -> String {
    e.to_string()
}

/// The error a search returns when a regex-like query does not compile: it
/// carries the offending pattern and the compiler's diagnostic.
#[derive(Debug)]
pub struct PatternError {
    pattern: String,
    message: String,
}

impl PatternError {
    /// The pattern that failed to compile.
    pub closed spec fn spec_pattern(&self) -> Seq<char> {
        self.pattern@
    }

    /// The compiler's diagnostic text.
    pub closed spec fn spec_message(&self) -> Seq<char> {
        self.message@
    }

    pub fn new(pattern: String, message: String) -> (r: PatternError)
        ensures
            r.spec_pattern() == pattern@,
            r.spec_message() == message@,
    {
        PatternError { pattern, message }
    }

    /// The pattern that failed to compile.
    pub fn pattern(&self) -> (r: &str)
        ensures
            r@ == self.spec_pattern(),
    {
        self.pattern.as_str()
    }

    /// A description of the failure, in the shape the search tool prints.
    pub fn message(&self) -> (r: String)
        ensures
            r@ == "Invalid regex pattern: "@ + self.spec_message(),
    {
        let mut r = String::new();
        r.append("Invalid regex pattern: ");
        r.append(self.message.as_str());
        proof {
            assert(r@ =~= "Invalid regex pattern: "@ + self.spec_message());
        }
        r
    }
}

} // verus!
