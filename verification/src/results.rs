//! The record a search returns for one line of output.
use vstd::prelude::*;

verus! {

/// One line of search output: its zero-based line number, its content, and
/// the patterns that matched on this very line — empty when the line was
/// included only as context.
#[derive(Debug, Clone)]
pub struct SearchResult {
    line_number: usize,
    line_content: String,
    matching_patterns: Vec<String>,
}

impl SearchResult {
    /// The zero-based line number.
    pub closed spec fn spec_line_number(&self) -> usize {
        self.line_number
    }

    /// The characters of the line.
    pub closed spec fn spec_content(&self) -> Seq<char> {
        self.line_content@
    }

    /// The patterns that matched on this line.
    pub closed spec fn spec_patterns(&self) -> Seq<Seq<char>> {
        self.matching_patterns.deep_view()
    }

    pub fn new(line_number: usize, line_content: String, matching_patterns: Vec<String>) -> (r:
        SearchResult)
        ensures
            r.spec_line_number() == line_number,
            r.spec_content() == line_content@,
            r.spec_patterns() == matching_patterns.deep_view(),
    {
        SearchResult { line_number, line_content, matching_patterns }
    }

    /// Returns the patterns that matched on this line.
    pub fn get_matching_patterns(&self) -> (r: &Vec<String>)
        ensures
            r.deep_view() == self.spec_patterns(),
    {
        &self.matching_patterns
    }

    /// Returns the zero-based line number of this result.
    pub fn get_line_number(&self) -> (r: usize)
        ensures
            r == self.spec_line_number(),
    {
        self.line_number
    }

    /// Returns the text content of this line.
    pub fn get_line_content(&self) -> (r: &str)
        ensures
            r@ == self.spec_content(),
    {
        self.line_content.as_str()
    }
}

} // verus!
