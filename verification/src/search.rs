//! The search engine: classifies the query, finds the matching lines,
//! expands context windows, and assembles the ordered result list.
use vstd::prelude::*;
use crate::context::{expand_context, context_mode_of, in_window, spec_mode, ContextMode};
use crate::engine::{
    check_pattern, pattern_error_text, regex_accepts, regex_compiles, regex_line_match,
    PatternError,
};
use crate::fold::{fold_ci, fold_string};
use crate::lines::{spec_lines, split_lines};
use crate::query::{classify, regex_like, spec_patterns, QueryKind};
use crate::results::SearchResult;
use crate::text::{chars_of, contains_exec, contains_sub};

verus! {

/// The literal sub-patterns a query is searched as: the split, trimmed
/// parts, each folded for the given case sensitivity.
pub open spec fn lit_pats(q: Seq<char>, ignore_case: bool) -> Seq<Seq<char>> {
    spec_patterns(q).map_values(|p: Seq<char>| fold_ci(p, ignore_case))
}

/// The sub-sequence of `pats` whose elements occur in the (already folded)
/// line, in the order given.
pub open spec fn pats_matching(pats: Seq<Seq<char>>, line: Seq<char>) -> Seq<Seq<char>>
    decreases pats.len(),
{
    if pats.len() == 0 {
        Seq::empty()
    } else if contains_sub(line, pats[0]) {
        seq![pats[0]] + pats_matching(pats.drop_first(), line)
    } else {
        pats_matching(pats.drop_first(), line)
    }
}

/// Whether a line directly matches the query: a regex-like query must
/// accept the line; a literal query must have some sub-pattern occur in
/// the folded line.
pub open spec fn line_matched(q: Seq<char>, ignore_case: bool, line: Seq<char>) -> bool {
    if regex_like(q) {
        regex_accepts(q, ignore_case, line)
    } else {
        exists|k: int|
            0 <= k < lit_pats(q, ignore_case).len() && contains_sub(
                fold_ci(line, ignore_case),
                #[trigger] lit_pats(q, ignore_case)[k],
            )
    }
}

/// The patterns reported for a line of output: for a regex-like query the
/// query itself when the line matches; for a literal query every folded
/// sub-pattern that occurs in the folded line.  A line included only as
/// context reports no patterns.
pub open spec fn line_patterns(q: Seq<char>, ignore_case: bool, line: Seq<char>) -> Seq<Seq<char>> {
    if regex_like(q) {
        if regex_accepts(q, ignore_case, line) {
            seq![q]
        } else {
            Seq::empty()
        }
    } else {
        pats_matching(lit_pats(q, ignore_case), fold_ci(line, ignore_case))
    }
}

/// Line `j` belongs to the output: it matches the query itself, or it lies
/// in the context window of some line that does.
pub open spec fn included_in(
    q: Seq<char>,
    ignore_case: bool,
    lines: Seq<Seq<char>>,
    mode: ContextMode,
    j: int,
) -> bool {
    0 <= j < lines.len() && (line_matched(q, ignore_case, lines[j]) || exists|l: int|
        0 <= l < lines.len() && line_matched(q, ignore_case, lines[l]) && #[trigger] in_window(
            j,
            l,
            mode,
        ))
}

/// One result record is right for its line: the line is included, the
/// content is that line's text, and the patterns are those matching on
/// this very line.
pub open spec fn result_valid(
    r: SearchResult,
    q: Seq<char>,
    ignore_case: bool,
    lines: Seq<Seq<char>>,
    mode: ContextMode,
) -> bool {
    &&& included_in(q, ignore_case, lines, mode, r.spec_line_number() as int)
    &&& r.spec_content() == lines[r.spec_line_number() as int]
    &&& r.spec_patterns() == line_patterns(q, ignore_case, lines[r.spec_line_number() as int])
}

/// The whole result list is right: every record is valid, the records are
/// sorted strictly ascending by line number (so no line repeats), and
/// every included line appears.
pub open spec fn results_for(
    rs: Seq<SearchResult>,
    q: Seq<char>,
    ignore_case: bool,
    lines: Seq<Seq<char>>,
    mode: ContextMode,
) -> bool {
    &&& forall|k: int|
        0 <= k < rs.len() ==> result_valid(#[trigger] rs[k], q, ignore_case, lines, mode)
    &&& forall|k1: int, k2: int|
        0 <= k1 < k2 < rs.len() ==> #[trigger] rs[k1].spec_line_number()
            < #[trigger] rs[k2].spec_line_number()
    &&& forall|j: int|
        #[trigger] included_in(q, ignore_case, lines, mode, j) ==> exists|k: int|
            0 <= k < rs.len() && #[trigger] rs[k].spec_line_number() == j
}

/// Folds every pattern for the given case sensitivity.
fn fold_patterns(pats: &Vec<String>, ignore_case: bool) -> (r: Vec<String>)
    ensures
        r.deep_view() == pats.deep_view().map_values(|p: Seq<char>| fold_ci(p, ignore_case)),
{
    let ghost mapped = pats.deep_view().map_values(|p: Seq<char>| fold_ci(p, ignore_case));
    let n = pats.len();
    let mut r: Vec<String> = Vec::new();
    let mut k: usize = 0;
    proof {
        assert(r.deep_view() =~= mapped.take(0));
    }
    while k < n
        invariant
            k <= n,
            n == pats@.len(),
            mapped == pats.deep_view().map_values(|p: Seq<char>| fold_ci(p, ignore_case)),
            r.deep_view() == mapped.take(k as int),
        decreases n - k,
    {
        let ghost prev = r.deep_view();
        let s = fold_string(pats[k].as_str(), ignore_case);
        r.push(s);
        proof {
            assert(r.deep_view() =~= prev.push(mapped[k as int]));
            assert(prev.push(mapped[k as int]) =~= mapped.take(k + 1));
        }
        k = k + 1;
    }
    proof {
        assert(mapped.take(n as int) =~= mapped);
    }
    r
}

/// Collects the characters of each string.
fn to_char_vecs(v: &Vec<String>) -> (r: Vec<Vec<char>>)
    ensures
        r@.len() == v@.len(),
        forall|i: int| 0 <= i < r@.len() ==> (#[trigger] r@[i])@ == v.deep_view()[i],
{
    let n = v.len();
    let mut r: Vec<Vec<char>> = Vec::new();
    let mut k: usize = 0;
    while k < n
        invariant
            k <= n,
            n == v@.len(),
            r@.len() == k,
            forall|i: int| 0 <= i < k ==> (#[trigger] r@[i])@ == v.deep_view()[i],
        decreases n - k,
    {
        let cv = chars_of(v[k].as_str());
        r.push(cv);
        k = k + 1;
    }
    r
}

/// Whether any of the patterns occurs in the (already folded) line.
fn any_pattern_matches(line: &Vec<char>, pats_chars: &Vec<Vec<char>>) -> (r: bool)
    ensures
        r == exists|k: int|
            0 <= k < pats_chars@.len() && contains_sub(line@, (#[trigger] pats_chars@[k])@),
{
    let n = pats_chars.len();
    let mut k: usize = 0;
    while k < n
        invariant
            k <= n,
            n == pats_chars@.len(),
            forall|t: int| 0 <= t < k ==> !contains_sub(line@, (#[trigger] pats_chars@[t])@),
        decreases n - k,
    {
        if contains_exec(line, &pats_chars[k]) {
            return true;
        }
        k = k + 1;
    }
    false
}

/// The patterns, among those given, that occur in the (already folded)
/// line; `pats_chars` holds the characters of the strings in `pats`.
pub fn pats_on_line(line: &Vec<char>, pats_chars: &Vec<Vec<char>>, pats: &Vec<String>) -> (r: Vec<
    String,
>)
    requires
        pats_chars@.len() == pats@.len(),
        forall|i: int| 0 <= i < pats@.len() ==> (#[trigger] pats_chars@[i])@ == pats.deep_view()[i],
    ensures
        r.deep_view() == pats_matching(pats.deep_view(), line@),
{
    let n = pats.len();
    let mut r: Vec<String> = Vec::new();
    let mut k: usize = 0;
    proof {
        assert(pats.deep_view().skip(0) =~= pats.deep_view());
    }
    while k < n
        invariant
            k <= n,
            n == pats@.len(),
            n == pats_chars@.len(),
            forall|i: int|
                0 <= i < pats@.len() ==> (#[trigger] pats_chars@[i])@ == pats.deep_view()[i],
            r.deep_view() + pats_matching(pats.deep_view().skip(k as int), line@) == pats_matching(
                pats.deep_view(),
                line@,
            ),
        decreases n - k,
    {
        let ghost prev = r.deep_view();
        let ghost rest = pats.deep_view().skip(k as int);
        proof {
            assert(rest[0] == pats.deep_view()[k as int]);
            assert(rest.drop_first() =~= pats.deep_view().skip(k + 1));
        }
        if contains_exec(line, &pats_chars[k]) {
            r.push(pats[k].clone());
            proof {
                assert(r.deep_view() =~= prev.push(pats.deep_view()[k as int]));
                assert(prev.push(rest[0]) + pats_matching(pats.deep_view().skip(k + 1), line@)
                    =~= prev + (seq![rest[0]] + pats_matching(
                    pats.deep_view().skip(k + 1),
                    line@,
                )));
            }
        }
        k = k + 1;
    }
    proof {
        assert(pats.deep_view().skip(n as int) =~= Seq::<Seq<char>>::empty());
        assert(r.deep_view() + Seq::<Seq<char>>::empty() =~= r.deep_view());
    }
    r
}

/// Builds the ordered result list: one record per included line, ascending
/// by line number, carrying that line's content and its own pattern list.
pub fn assemble(lines: &Vec<String>, included: &Vec<bool>, line_pats: &Vec<Vec<String>>) -> (out:
    Vec<SearchResult>)
    requires
        included@.len() == lines@.len(),
        line_pats@.len() == lines@.len(),
    ensures
        forall|k: int|
            0 <= k < out@.len() ==> {
                let i = (#[trigger] out@[k]).spec_line_number() as int;
                &&& i < lines@.len()
                &&& included@[i]
                &&& out@[k].spec_content() == lines.deep_view()[i]
                &&& out@[k].spec_patterns() == line_pats@[i].deep_view()
            },
        forall|k1: int, k2: int|
            0 <= k1 < k2 < out@.len() ==> #[trigger] out@[k1].spec_line_number()
                < #[trigger] out@[k2].spec_line_number(),
        forall|j: int|
            0 <= j < lines@.len() && included@[j] ==> exists|k: int|
                0 <= k < out@.len() && #[trigger] out@[k].spec_line_number() == j,
{
    let n = lines.len();
    let mut out: Vec<SearchResult> = Vec::new();
    let mut i: usize = 0;
    while i < n
        invariant
            i <= n,
            n == lines@.len(),
            included@.len() == n,
            line_pats@.len() == n,
            forall|k: int|
                0 <= k < out@.len() ==> {
                    let t = (#[trigger] out@[k]).spec_line_number() as int;
                    &&& t < i
                    &&& included@[t]
                    &&& out@[k].spec_content() == lines.deep_view()[t]
                    &&& out@[k].spec_patterns() == line_pats@[t].deep_view()
                },
            forall|k1: int, k2: int|
                0 <= k1 < k2 < out@.len() ==> #[trigger] out@[k1].spec_line_number()
                    < #[trigger] out@[k2].spec_line_number(),
            forall|j: int|
                0 <= j < i && included@[j] ==> exists|k: int|
                    0 <= k < out@.len() && #[trigger] out@[k].spec_line_number() == j,
        decreases n - i,
    {
        if included[i] {
            let ghost prev = out@;
            let rec = SearchResult::new(i, lines[i].clone(), line_pats[i].clone());
            proof {
                assert(lines@[i as int]@ == lines.deep_view()[i as int]);
            }
            out.push(rec);
            proof {
                assert(out@ =~= prev.push(rec));
                assert forall|j: int|
                    0 <= j < i + 1 && included@[j] implies exists|k: int|
                    0 <= k < out@.len() && #[trigger] out@[k].spec_line_number() == j by {
                    if j == i {
                        assert(out@[out@.len() - 1].spec_line_number() == j);
                    } else {
                        let k = choose|k: int|
                            0 <= k < prev.len() && #[trigger] prev[k].spec_line_number() == j;
                        assert(out@[k].spec_line_number() == j);
                    }
                }
            }
        }
        i = i + 1;
    }
    out
}

/// Searches a text for a query.  The query is classified first: one with a
/// regex indicator character runs as a regular expression (an invalid one
/// aborts the search with a `PatternError`); any other query runs as
/// literal sub-patterns split on `'|'`.  The result holds one record per
/// included line — matches plus any requested context — sorted strictly
/// ascending by line number, each carrying the patterns matching on that
/// very line.
pub fn search(
    query: &str,
    contents: &str,
    context: &str,
    content_count: Option<usize>,
    ignore_case: bool,
) -> (r: Result<Vec<SearchResult>, PatternError>)
    ensures
        match r {
            Result::Ok(rs) => (regex_like(query@) ==> regex_compiles(query@, ignore_case))
                && results_for(
                rs@,
                query@,
                ignore_case,
                spec_lines(contents@),
                spec_mode(context@, content_count),
            ),
            Result::Err(e) => regex_like(query@) && !regex_compiles(query@, ignore_case)
                && e.spec_pattern() == query@,
        },
{
    let lines = split_lines(contents);
    let mode = context_mode_of(context, content_count);
    let n = lines.len();
    let ghost spec_ls = spec_lines(contents@);
    proof {
        assert(lines.deep_view().len() == lines@.len());
    }
    match classify(query) {
        QueryKind::Regex(pat) => {
            match check_pattern(pat.as_str(), ignore_case) {
                Result::Err(e) => {
                    let msg = pattern_error_text(&e);
                    Result::Err(PatternError::new(pat, msg))
                },
                Result::Ok(()) => {
                    let mut matched: Vec<bool> = Vec::new();
                    let mut line_pats: Vec<Vec<String>> = Vec::new();
                    let mut i: usize = 0;
                    while i < n
                        invariant
                            i <= n,
                            n == lines@.len(),
                            lines.deep_view() == spec_ls,
                            pat@ == query@,
                            regex_like(query@),
                            regex_compiles(query@, ignore_case),
                            matched@.len() == i,
                            line_pats@.len() == i,
                            forall|t: int|
                                0 <= t < i ==> #[trigger] matched@[t] == line_matched(
                                    query@,
                                    ignore_case,
                                    spec_ls[t],
                                ),
                            forall|t: int|
                                0 <= t < i ==> (#[trigger] line_pats@[t]).deep_view()
                                    == line_patterns(query@, ignore_case, spec_ls[t]),
                        decreases n - i,
                    {
                        proof {
                            assert(lines@[i as int]@ == spec_ls[i as int]);
                        }
                        let hit = regex_line_match(pat.as_str(), ignore_case, lines[i].as_str());
                        matched.push(hit);
                        let mut mp: Vec<String> = Vec::new();
                        if hit {
                            mp.push(pat.clone());
                            proof {
                                assert(mp.deep_view() =~= seq![query@]);
                            }
                        } else {
                            proof {
                                assert(mp.deep_view() =~= Seq::<Seq<char>>::empty());
                            }
                        }
                        line_pats.push(mp);
                        i = i + 1;
                    }
                    let included = expand_context(&matched, mode);
                    let out = assemble(&lines, &included, &line_pats);
                    proof {
                        lemma_marks_included(matched@, included@, query@, ignore_case, spec_ls, mode);
                        lemma_assembled_results(
                            out@,
                            included@,
                            line_pats@,
                            lines.deep_view(),
                            query@,
                            ignore_case,
                            mode,
                        );
                    }
                    Result::Ok(out)
                },
            }
        },
        QueryKind::Literal(pats) => {
            let pats_use = fold_patterns(&pats, ignore_case);
            let pats_chars = to_char_vecs(&pats_use);
            proof {
                assert(pats_use.deep_view() == lit_pats(query@, ignore_case));
            }
            let mut matched: Vec<bool> = Vec::new();
            let mut line_pats: Vec<Vec<String>> = Vec::new();
            let mut i: usize = 0;
            while i < n
                invariant
                    i <= n,
                    n == lines@.len(),
                    lines.deep_view() == spec_ls,
                    !regex_like(query@),
                    pats_use.deep_view() == lit_pats(query@, ignore_case),
                    pats_chars@.len() == pats_use@.len(),
                    forall|t: int|
                        0 <= t < pats_use@.len() ==> (#[trigger] pats_chars@[t])@
                            == pats_use.deep_view()[t],
                    matched@.len() == i,
                    line_pats@.len() == i,
                    forall|t: int|
                        0 <= t < i ==> #[trigger] matched@[t] == line_matched(
                            query@,
                            ignore_case,
                            spec_ls[t],
                        ),
                    forall|t: int|
                        0 <= t < i ==> (#[trigger] line_pats@[t]).deep_view() == line_patterns(
                            query@,
                            ignore_case,
                            spec_ls[t],
                        ),
                decreases n - i,
            {
                proof {
                    assert(lines@[i as int]@ == spec_ls[i as int]);
                }
                let folded = fold_string(lines[i].as_str(), ignore_case);
                let folded_chars = chars_of(folded.as_str());
                let ghost fv = fold_ci(spec_ls[i as int], ignore_case);
                let hit = any_pattern_matches(&folded_chars, &pats_chars);
                proof {
                    assert(folded_chars@ == fv);
                    if hit {
                        let k = choose|k: int|
                            0 <= k < pats_chars@.len() && contains_sub(
                                fv,
                                (#[trigger] pats_chars@[k])@,
                            );
                        assert(contains_sub(fv, lit_pats(query@, ignore_case)[k]));
                        assert(line_matched(query@, ignore_case, spec_ls[i as int]));
                    } else {
                        if line_matched(query@, ignore_case, spec_ls[i as int]) {
                            let k = choose|k: int|
                                0 <= k < lit_pats(query@, ignore_case).len() && contains_sub(
                                    fv,
                                    #[trigger] lit_pats(query@, ignore_case)[k],
                                );
                            assert(contains_sub(fv, (pats_chars@[k])@));
                            assert(false);
                        }
                    }
                }
                matched.push(hit);
                let mp = pats_on_line(&folded_chars, &pats_chars, &pats_use);
                line_pats.push(mp);
                i = i + 1;
            }
            let included = expand_context(&matched, mode);
            let out = assemble(&lines, &included, &line_pats);
            proof {
                lemma_marks_included(matched@, included@, query@, ignore_case, spec_ls, mode);
                lemma_assembled_results(
                    out@,
                    included@,
                    line_pats@,
                    lines.deep_view(),
                    query@,
                    ignore_case,
                    mode,
                );
            }
            Result::Ok(out)
        },
    }
}

/// Marks expanded from per-line match marks agree with `included_in`.
proof fn lemma_marks_included(
    matched: Seq<bool>,
    included: Seq<bool>,
    q: Seq<char>,
    ignore_case: bool,
    lines: Seq<Seq<char>>,
    mode: ContextMode,
)
    requires
        matched.len() == lines.len(),
        included.len() == lines.len(),
        forall|t: int| 0 <= t < lines.len() ==> #[trigger] matched[t] == line_matched(
            q,
            ignore_case,
            lines[t],
        ),
        forall|j: int|
            0 <= j < lines.len() ==> #[trigger] included[j] == (matched[j] || exists|l: int|
                0 <= l < lines.len() && #[trigger] matched[l] && in_window(j, l, mode)),
    ensures
        forall|j: int|
            0 <= j < lines.len() ==> #[trigger] included[j] == included_in(
                q,
                ignore_case,
                lines,
                mode,
                j,
            ),
{
    assert forall|j: int| 0 <= j < lines.len() implies #[trigger] included[j] == included_in(
        q,
        ignore_case,
        lines,
        mode,
        j,
    ) by {
        if included[j] {
            if !matched[j] {
                let l = choose|l: int|
                    0 <= l < lines.len() && #[trigger] matched[l] && in_window(j, l, mode);
                assert(line_matched(q, ignore_case, lines[l]) && in_window(j, l, mode));
            }
            assert(included_in(q, ignore_case, lines, mode, j));
        } else {
            if included_in(q, ignore_case, lines, mode, j) {
                if !line_matched(q, ignore_case, lines[j]) {
                    let l = choose|l: int|
                        0 <= l < lines.len() && line_matched(q, ignore_case, lines[l])
                            && #[trigger] in_window(j, l, mode);
                    assert(matched[l] && in_window(j, l, mode));
                }
                assert(false);
            }
        }
    }
}

/// What `assemble` builds from correct marks and per-line pattern lists is
/// a correct result list.
proof fn lemma_assembled_results(
    out: Seq<SearchResult>,
    included: Seq<bool>,
    line_pats: Seq<Vec<String>>,
    lines: Seq<Seq<char>>,
    q: Seq<char>,
    ignore_case: bool,
    mode: ContextMode,
)
    requires
        included.len() == lines.len(),
        line_pats.len() == lines.len(),
        forall|j: int|
            0 <= j < lines.len() ==> #[trigger] included[j] == included_in(
                q,
                ignore_case,
                lines,
                mode,
                j,
            ),
        forall|t: int|
            0 <= t < lines.len() ==> (#[trigger] line_pats[t]).deep_view() == line_patterns(
                q,
                ignore_case,
                lines[t],
            ),
        forall|k: int|
            0 <= k < out.len() ==> {
                let i = (#[trigger] out[k]).spec_line_number() as int;
                &&& i < lines.len()
                &&& included[i]
                &&& out[k].spec_content() == lines[i]
                &&& out[k].spec_patterns() == line_pats[i].deep_view()
            },
        forall|k1: int, k2: int|
            0 <= k1 < k2 < out.len() ==> #[trigger] out[k1].spec_line_number()
                < #[trigger] out[k2].spec_line_number(),
        forall|j: int|
            0 <= j < lines.len() && included[j] ==> exists|k: int|
                0 <= k < out.len() && #[trigger] out[k].spec_line_number() == j,
    ensures
        results_for(out, q, ignore_case, lines, mode),
{
    assert forall|k: int| 0 <= k < out.len() implies result_valid(
        #[trigger] out[k],
        q,
        ignore_case,
        lines,
        mode,
    ) by {
        let i = out[k].spec_line_number() as int;
        assert(included[i]);
    }
    assert forall|j: int| #[trigger] included_in(q, ignore_case, lines, mode, j) implies exists|
        k: int,
    | 0 <= k < out.len() && #[trigger] out[k].spec_line_number() == j by {
        assert(included[j]);
    }
}

} // verus!
