//! Case folding for case-insensitive search.  Both sides of a comparison —
//! the pattern and the line — are folded with the same function, so that
//! the comparison is consistent.
use vstd::prelude::*;

verus! {

/// What `str::to_lowercase` returns for a given character sequence.  The
/// result depends on the characters alone, so it can be given a name even
/// though its full definition (Unicode case mapping) is not written out.
pub uninterp spec fn lower_of(s: Seq<char>) -> Seq<char>;

/// Relies on `str::to_lowercase`: the result is a function of the input
/// characters alone, and an empty string stays empty.
#[verifier::external_body]
fn to_lower(s: &str) -> (r: String)
    ensures
        r@ == lower_of(s@),
        s@.len() == 0 ==> r@.len() == 0,
{
    s.to_lowercase()
}

/// The sequence a string is compared as: folded to lower case when the
/// search ignores case, the string itself otherwise.
pub open spec fn fold_ci(s: Seq<char>, ignore_case: bool) -> Seq<char> {
    if ignore_case {
        lower_of(s)
    } else {
        s
    }
}

/// Folds a string for comparison under the given case-sensitivity flag.
pub fn fold_string(s: &str, ignore_case: bool) -> (r: String)
    ensures
        r@ == fold_ci(s@, ignore_case),
{
    if ignore_case {
        to_lower(s)
    } else {
        s.to_owned()
    }
}

} // verus!
