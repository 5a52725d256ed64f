//! Search statistics: how many files and lines were searched and how many
//! individual pattern matches were found.  Match counting re-scans each
//! result's patterns against its line, counting every non-overlapping
//! occurrence, not just whether the line matched.
use vstd::prelude::*;
use crate::config::Config;
use crate::engine::{check_pattern, regex_compiles, regex_line_spans, regex_spans};
use crate::fold::{fold_ci, fold_string};
use crate::query::regex_like;
use crate::results::SearchResult;
use crate::text::{chars_of, count_occ, count_occurrences};

verus! {

/// Clamps an (always non-negative) count into the range of `usize`.
pub open spec fn saturate(x: int) -> int {
    if x > usize::MAX as int {
        usize::MAX as int
    } else {
        x
    }
}

/// The occurrences the patterns of one result have in its line, under
/// literal matching: the folded patterns are counted in the folded line.
pub open spec fn pat_counts(pats: Seq<Seq<char>>, line: Seq<char>, ignore_case: bool) -> int
    decreases pats.len(),
{
    if pats.len() == 0 {
        0
    } else {
        count_occ(fold_ci(line, ignore_case), fold_ci(pats[0], ignore_case)) + pat_counts(
            pats.drop_first(),
            line,
            ignore_case,
        )
    }
}

/// The literal match count over a result list.
pub open spec fn lit_total(results: Seq<SearchResult>, ignore_case: bool) -> int
    decreases results.len(),
{
    if results.len() == 0 {
        0
    } else {
        pat_counts(results[0].spec_patterns(), results[0].spec_content(), ignore_case) + lit_total(
            results.drop_first(),
            ignore_case,
        )
    }
}

/// The regex match count of one result: the number of non-overlapping
/// matches its first pattern has in its line — zero for a context line
/// with no patterns, and zero when the pattern does not compile.
pub open spec fn rx_result_count(r: SearchResult, ignore_case: bool) -> int {
    if r.spec_patterns().len() == 0 {
        0
    } else {
        let p = r.spec_patterns()[0];
        if regex_compiles(p, ignore_case) {
            regex_spans(p, ignore_case, r.spec_content()).len() as int
        } else {
            0
        }
    }
}

/// The regex match count over a result list.
pub open spec fn rx_total(results: Seq<SearchResult>, ignore_case: bool) -> int
    decreases results.len(),
{
    if results.len() == 0 {
        0
    } else {
        rx_result_count(results[0], ignore_case) + rx_total(results.drop_first(), ignore_case)
    }
}

/// The match count a result list contributes for a query: counted with
/// the regex engine for a regex-like query, by literal occurrence
/// counting otherwise.
pub open spec fn match_total(
    results: Seq<SearchResult>,
    q: Seq<char>,
    ignore_case: bool,
) -> int {
    if regex_like(q) {
        rx_total(results, ignore_case)
    } else {
        lit_total(results, ignore_case)
    }
}

proof fn lemma_pat_counts_nonneg(pats: Seq<Seq<char>>, line: Seq<char>, ignore_case: bool)
    ensures
        pat_counts(pats, line, ignore_case) >= 0,
    decreases pats.len(),
{
    if pats.len() > 0 {
        lemma_pat_counts_nonneg(pats.drop_first(), line, ignore_case);
    }
}

proof fn lemma_lit_total_nonneg(results: Seq<SearchResult>, ignore_case: bool)
    ensures
        lit_total(results, ignore_case) >= 0,
    decreases results.len(),
{
    if results.len() > 0 {
        lemma_pat_counts_nonneg(results[0].spec_patterns(), results[0].spec_content(), ignore_case);
        lemma_lit_total_nonneg(results.drop_first(), ignore_case);
    }
}

proof fn lemma_rx_total_nonneg(results: Seq<SearchResult>, ignore_case: bool)
    ensures
        rx_total(results, ignore_case) >= 0,
    decreases results.len(),
{
    if results.len() > 0 {
        lemma_rx_total_nonneg(results.drop_first(), ignore_case);
    }
}

proof fn lemma_lit_total_step(results: Seq<SearchResult>, i: int, ignore_case: bool)
    requires
        0 <= i < results.len(),
    ensures
        lit_total(results.skip(i), ignore_case) == pat_counts(
            results[i].spec_patterns(),
            results[i].spec_content(),
            ignore_case,
        ) + lit_total(results.skip(i + 1), ignore_case),
{
    assert(results.skip(i)[0] == results[i]);
    assert(results.skip(i).drop_first() =~= results.skip(i + 1));
}

proof fn lemma_rx_total_step(results: Seq<SearchResult>, i: int, ignore_case: bool)
    requires
        0 <= i < results.len(),
    ensures
        rx_total(results.skip(i), ignore_case) == rx_result_count(results[i], ignore_case)
            + rx_total(results.skip(i + 1), ignore_case),
{
    assert(results.skip(i)[0] == results[i]);
    assert(results.skip(i).drop_first() =~= results.skip(i + 1));
}

/// Counts every literal pattern occurrence across the results: for each
/// result, each of its patterns is folded and counted in the folded line.
/// The count saturates at the largest `usize`.
pub fn count_actual_matches(results: &Vec<SearchResult>, ignore_case: bool) -> (c: usize)
    ensures
        c == saturate(lit_total(results@, ignore_case)),
{
    let n = results.len();
    let mut c: usize = 0;
    let ghost total = lit_total(results@, ignore_case);
    let mut i: usize = 0;
    let ghost mut acc: int = 0;
    proof {
        assert(results@.skip(0) =~= results@);
        lemma_lit_total_nonneg(results@, ignore_case);
    }
    while i < n
        invariant
            i <= n,
            n == results@.len(),
            total == lit_total(results@, ignore_case),
            acc >= 0,
            acc + lit_total(results@.skip(i as int), ignore_case) == total,
            c == saturate(acc),
        decreases n - i,
    {
        let rec = &results[i];
        let pats = rec.get_matching_patterns();
        let folded_line = fold_string(rec.get_line_content(), ignore_case);
        let line_chars = chars_of(folded_line.as_str());
        let m = pats.len();
        let ghost rpats = results@[i as int].spec_patterns();
        let ghost rline = results@[i as int].spec_content();
        let mut j: usize = 0;
        let ghost mut sub: int = 0;
        proof {
            assert(rpats.skip(0) =~= rpats);
            lemma_pat_counts_nonneg(rpats, rline, ignore_case);
        }
        while j < m
            invariant
                j <= m,
                m == rpats.len(),
                line_chars@ == fold_ci(rline, ignore_case),
                pats.deep_view() == rpats,
                m == pats@.len(),
                sub >= 0,
                acc >= 0,
                sub + pat_counts(rpats.skip(j as int), rline, ignore_case) == pat_counts(
                    rpats,
                    rline,
                    ignore_case,
                ),
                c == saturate(acc + sub),
            decreases m - j,
        {
            let folded_pat = fold_string(pats[j].as_str(), ignore_case);
            let pat_chars = chars_of(folded_pat.as_str());
            let cnt = count_occurrences(&line_chars, &pat_chars);
            proof {
                assert(rpats.skip(j as int)[0] == rpats[j as int]);
                assert(rpats.skip(j as int).drop_first() =~= rpats.skip(j + 1));
                assert(pats@[j as int]@ == rpats[j as int]);
                lemma_pat_counts_nonneg(rpats.skip(j + 1), rline, ignore_case);
            }
            c = c.saturating_add(cnt);
            proof {
                sub = sub + cnt;
            }
            j = j + 1;
        }
        proof {
            assert(rpats.skip(m as int) =~= Seq::<Seq<char>>::empty());
            lemma_lit_total_step(results@, i as int, ignore_case);
            lemma_lit_total_nonneg(results@.skip(i + 1), ignore_case);
            acc = acc + pat_counts(rpats, rline, ignore_case);
        }
        i = i + 1;
    }
    proof {
        assert(results@.skip(n as int) =~= Seq::<SearchResult>::empty());
    }
    c
}

/// Tracks statistics about a search operation: the query, the number of
/// lines and files searched, the number of individual matches, and the
/// elapsed time in milliseconds.
pub struct SearchStats {
    pub query: String,
    pub total_lines: usize,
    pub total_matches: usize,
    pub files_searched: usize,
    pub duration: u64,
}

impl SearchStats {
    /// Initializes statistics for a run over the given configuration:
    /// the query is carried over and every counter starts at zero.
    pub fn init_stats(config: &Config) -> (s: SearchStats)
        ensures
            s.query@ == config.query@,
            s.total_lines == 0,
            s.total_matches == 0,
            s.files_searched == 0,
            s.duration == 0,
    {
        SearchStats {
            query: config.query.clone(),
            total_lines: 0,
            total_matches: 0,
            files_searched: 0,
            duration: 0,
        }
    }

    /// Adds the matches found in one result list to the running total,
    /// counting with the regex engine when the query is regex-like and by
    /// literal occurrence counting otherwise; the total saturates at the
    /// largest `usize`.  The other fields are untouched.
    pub fn update_match_count(&mut self, results: &Vec<SearchResult>, config: &Config)
        ensures
            final(self).total_matches == saturate(
                old(self).total_matches + match_total(
                    results@,
                    config.query@,
                    config.ignore_case,
                ),
            ),
            final(self).query == old(self).query,
            final(self).total_lines == old(self).total_lines,
            final(self).files_searched == old(self).files_searched,
            final(self).duration == old(self).duration,
    {
        if crate::query::is_regex_like(config.query.as_str()) {
            let n = results.len();
            let mut i: usize = 0;
            let ghost mut acc: int = old(self).total_matches as int;
            proof {
                assert(results@.skip(0) =~= results@);
                lemma_rx_total_nonneg(results@, config.ignore_case);
            }
            while i < n
                invariant
                    i <= n,
                    n == results@.len(),
                    acc >= 0,
                    acc + rx_total(results@.skip(i as int), config.ignore_case) == old(
                        self,
                    ).total_matches + rx_total(results@, config.ignore_case),
                    self.total_matches == saturate(acc),
                    self.query == old(self).query,
                    self.total_lines == old(self).total_lines,
                    self.files_searched == old(self).files_searched,
                    self.duration == old(self).duration,
                decreases n - i,
            {
                let rec = &results[i];
                let pats = rec.get_matching_patterns();
                proof {
                    lemma_rx_total_step(results@, i as int, config.ignore_case);
                    lemma_rx_total_nonneg(results@.skip(i + 1), config.ignore_case);
                }
                if pats.len() > 0 {
                    let p = &pats[0];
                    proof {
                        assert(pats@[0]@ == results@[i as int].spec_patterns()[0]);
                    }
                    match check_pattern(p.as_str(), config.ignore_case) {
                        Result::Ok(()) => {
                            let spans = regex_line_spans(
                                p.as_str(),
                                config.ignore_case,
                                rec.get_line_content(),
                            );
                            self.total_matches = self.total_matches.saturating_add(spans.len());
                            proof {
                                acc = acc + rx_result_count(results@[i as int], config.ignore_case);
                            }
                        },
                        Result::Err(_) => {
                            proof {
                                assert(rx_result_count(results@[i as int], config.ignore_case)
                                    == 0);
                            }
                        },
                    }
                }
                i = i + 1;
            }
            proof {
                assert(results@.skip(n as int) =~= Seq::<SearchResult>::empty());
            }
        } else {
            let found = count_actual_matches(results, config.ignore_case);
            proof {
                lemma_lit_total_nonneg(results@, config.ignore_case);
            }
            self.total_matches = self.total_matches.saturating_add(found);
        }
    }
}

} // verus!
