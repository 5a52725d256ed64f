//! Laws of the search engine, stated and proved once and for all: what a
//! correct result list implies for single-pattern queries, how the
//! included set relates to the matched set and the text's bounds, that
//! the outcome is deterministic, and that context windows clamp at the
//! edges of the text.
use vstd::prelude::*;
use crate::context::{in_window, ContextMode};
use crate::fold::fold_ci;
use crate::lines::spec_lines;
use crate::query::regex_like;
use crate::results::SearchResult;
use crate::search::{included_in, line_matched, line_patterns, lit_pats, pats_matching, results_for, result_valid};
use crate::text::contains_sub;

verus! {

/// For a literal query with a single sub-pattern and no context, the
/// result set holds exactly the lines whose folded content contains the
/// folded pattern, each tagged with that one pattern.
pub proof fn lemma_single_literal_exact(
    rs: Seq<SearchResult>,
    q: Seq<char>,
    ignore_case: bool,
    lines: Seq<Seq<char>>,
)
    requires
        !regex_like(q),
        lit_pats(q, ignore_case).len() == 1,
        results_for(rs, q, ignore_case, lines, ContextMode::Off),
    ensures
        forall|k: int|
            0 <= k < rs.len() ==> {
                let i = (#[trigger] rs[k]).spec_line_number() as int;
                &&& i < lines.len()
                &&& contains_sub(fold_ci(lines[i], ignore_case), lit_pats(q, ignore_case)[0])
                &&& rs[k].spec_content() == lines[i]
                &&& rs[k].spec_patterns() == seq![lit_pats(q, ignore_case)[0]]
            },
        forall|j: int|
            0 <= j < lines.len() && contains_sub(
                fold_ci(#[trigger] lines[j], ignore_case),
                lit_pats(q, ignore_case)[0],
            ) ==> exists|k: int| 0 <= k < rs.len() && (#[trigger] rs[k]).spec_line_number() == j,
{
    let pats = lit_pats(q, ignore_case);
    assert forall|k: int| 0 <= k < rs.len() implies {
        let i = (#[trigger] rs[k]).spec_line_number() as int;
        &&& i < lines.len()
        &&& contains_sub(fold_ci(lines[i], ignore_case), pats[0])
        &&& rs[k].spec_content() == lines[i]
        &&& rs[k].spec_patterns() == seq![pats[0]]
    } by {
        assert(result_valid(rs[k], q, ignore_case, lines, ContextMode::Off));
        let i = rs[k].spec_line_number() as int;
        assert(included_in(q, ignore_case, lines, ContextMode::Off, i));
        // no context window is ever open under `Off`
        assert(line_matched(q, ignore_case, lines[i]));
        assert(contains_sub(fold_ci(lines[i], ignore_case), pats[0])) by {
            let kk = choose|kk: int|
                0 <= kk < pats.len() && contains_sub(
                    fold_ci(lines[i], ignore_case),
                    #[trigger] pats[kk],
                );
            assert(kk == 0);
        }
        assert(pats_matching(pats, fold_ci(lines[i], ignore_case)) =~= seq![pats[0]]) by {
            assert(pats.drop_first().len() == 0);
            assert(pats_matching(pats.drop_first(), fold_ci(lines[i], ignore_case))
                =~= Seq::<Seq<char>>::empty());
        }
    }
    assert forall|j: int|
        0 <= j < lines.len() && contains_sub(
            fold_ci(#[trigger] lines[j], ignore_case),
            pats[0],
        ) implies exists|k: int| 0 <= k < rs.len() && (#[trigger] rs[k]).spec_line_number()
        == j by {
        assert(line_matched(q, ignore_case, lines[j]));
        assert(included_in(q, ignore_case, lines, ContextMode::Off, j));
    }
}

/// Every line in a result list lies within the text, and every line that
/// matches the query appears in the result list: the included set is a
/// superset of the matched set and never reaches outside the text.
pub proof fn lemma_included_superset(
    rs: Seq<SearchResult>,
    q: Seq<char>,
    ignore_case: bool,
    lines: Seq<Seq<char>>,
    mode: ContextMode,
)
    requires
        results_for(rs, q, ignore_case, lines, mode),
    ensures
        forall|k: int|
            0 <= k < rs.len() ==> (#[trigger] rs[k]).spec_line_number() < lines.len(),
        forall|j: int|
            0 <= j < lines.len() && line_matched(q, ignore_case, #[trigger] lines[j]) ==> exists|
                k: int,
            | 0 <= k < rs.len() && (#[trigger] rs[k]).spec_line_number() == j,
{
    assert forall|k: int|
        0 <= k < rs.len() implies (#[trigger] rs[k]).spec_line_number() < lines.len() by {
        assert(result_valid(rs[k], q, ignore_case, lines, mode));
    }
    assert forall|j: int|
        0 <= j < lines.len() && line_matched(q, ignore_case, #[trigger] lines[j]) implies exists|
        k: int,
    | 0 <= k < rs.len() && (#[trigger] rs[k]).spec_line_number() == j by {
        assert(included_in(q, ignore_case, lines, mode, j));
    }
}

/// A line in a match's `After` window is included, however large the
/// requested count: the window simply clamps at the end of the text
/// because there is no line beyond it to include.
pub proof fn lemma_after_context_clamped(
    q: Seq<char>,
    ignore_case: bool,
    lines: Seq<Seq<char>>,
    count: usize,
    l: int,
    j: int,
)
    requires
        0 <= l < lines.len(),
        line_matched(q, ignore_case, lines[l]),
        l < j < lines.len(),
        j <= l + count,
    ensures
        included_in(q, ignore_case, lines, ContextMode::After(count), j),
{
    assert(in_window(j, l, ContextMode::After(count)));
}

/// A context count of zero behaves exactly like no context at all,
/// whichever window shape was requested: only matched lines are included.
pub proof fn lemma_zero_count_is_no_context(
    q: Seq<char>,
    ignore_case: bool,
    lines: Seq<Seq<char>>,
    mode: ContextMode,
    j: int,
)
    requires
        mode == ContextMode::Before(0usize) || mode == ContextMode::After(0usize) || mode
            == ContextMode::Around(0usize),
    ensures
        included_in(q, ignore_case, lines, mode, j) == included_in(
            q,
            ignore_case,
            lines,
            ContextMode::Off,
            j,
        ),
{
    if included_in(q, ignore_case, lines, mode, j) {
        if !line_matched(q, ignore_case, lines[j]) {
            let l = choose|l: int|
                0 <= l < lines.len() && line_matched(q, ignore_case, lines[l])
                    && #[trigger] in_window(j, l, mode);
            assert(j == l);
            assert(false);
        }
    }
}

/// An included line always lies within the text's bounds.
pub proof fn lemma_included_bounds(
    q: Seq<char>,
    ignore_case: bool,
    lines: Seq<Seq<char>>,
    mode: ContextMode,
    j: int,
)
    requires
        included_in(q, ignore_case, lines, mode, j),
    ensures
        0 <= j < lines.len(),
{
}

proof fn lemma_sorted_unique(a: Seq<int>, b: Seq<int>)
    requires
        forall|i: int, j: int| 0 <= i < j < a.len() ==> #[trigger] a[i] < #[trigger] a[j],
        forall|i: int, j: int| 0 <= i < j < b.len() ==> #[trigger] b[i] < #[trigger] b[j],
        forall|x: int| a.contains(x) <==> b.contains(x),
    ensures
        a =~= b,
    decreases a.len(),
{
    if a.len() == 0 {
        if b.len() > 0 {
            assert(b.contains(b[0]));
            assert(a.contains(b[0]));
            assert(false);
        }
    } else {
        if b.len() == 0 {
            assert(a.contains(a[0]));
            assert(b.contains(a[0]));
            assert(false);
        }
        assert(a[0] == b[0]) by {
            assert(a.contains(a[0]));
            let j = choose|j: int| 0 <= j < b.len() && b[j] == a[0];
            assert(b[0] <= a[0]);
            assert(b.contains(b[0]));
            let i = choose|i: int| 0 <= i < a.len() && a[i] == b[0];
            assert(a[0] <= b[0]);
        }
        let at = a.drop_first();
        let bt = b.drop_first();
        assert forall|x: int| at.contains(x) <==> bt.contains(x) by {
            lemma_tail_membership(a, x);
            lemma_tail_membership(b, x);
        }
        lemma_sorted_unique(at, bt);
        assert(a =~= b) by {
            assert(a.len() == b.len());
            assert forall|i: int| 0 <= i < a.len() implies a[i] == b[i] by {
                if i > 0 {
                    assert(at[i - 1] == bt[i - 1]);
                }
            }
        }
    }
}

proof fn lemma_tail_membership(a: Seq<int>, x: int)
    requires
        a.len() > 0,
        forall|i: int, j: int| 0 <= i < j < a.len() ==> #[trigger] a[i] < #[trigger] a[j],
    ensures
        a.drop_first().contains(x) <==> (a.contains(x) && x > a[0]),
{
    let at = a.drop_first();
    if at.contains(x) {
        let i = choose|i: int| 0 <= i < at.len() && at[i] == x;
        assert(a[i + 1] == x);
        assert(a.contains(x));
        assert(a[0] < a[i + 1]);
    }
    if a.contains(x) && x > a[0] {
        let i = choose|i: int| 0 <= i < a.len() && a[i] == x;
        assert(i > 0);
        assert(at[i - 1] == x);
        assert(at.contains(x));
    }
}

/// The search outcome is deterministic: any two result lists that are
/// correct for the same query, text, mode and case flag agree line by
/// line — in line numbers, contents and pattern lists.
pub proof fn lemma_search_deterministic(
    rs1: Seq<SearchResult>,
    rs2: Seq<SearchResult>,
    q: Seq<char>,
    ignore_case: bool,
    lines: Seq<Seq<char>>,
    mode: ContextMode,
)
    requires
        results_for(rs1, q, ignore_case, lines, mode),
        results_for(rs2, q, ignore_case, lines, mode),
    ensures
        rs1.len() == rs2.len(),
        forall|k: int|
            0 <= k < rs1.len() ==> (#[trigger] rs1[k]).spec_line_number() == (
            #[trigger] rs2[k]).spec_line_number() && rs1[k].spec_content()
                == rs2[k].spec_content() && rs1[k].spec_patterns() == rs2[k].spec_patterns(),
{
    let a = Seq::new(rs1.len(), |k: int| rs1[k].spec_line_number() as int);
    let b = Seq::new(rs2.len(), |k: int| rs2[k].spec_line_number() as int);
    assert forall|x: int| a.contains(x) <==> b.contains(x) by {
        lemma_nums_membership(rs1, a, q, ignore_case, lines, mode, x);
        lemma_nums_membership(rs2, b, q, ignore_case, lines, mode, x);
    }
    assert forall|i: int, j: int| 0 <= i < j < a.len() implies #[trigger] a[i] < #[trigger] a[j]
        by {
        assert(rs1[i].spec_line_number() < rs1[j].spec_line_number());
    }
    assert forall|i: int, j: int| 0 <= i < j < b.len() implies #[trigger] b[i] < #[trigger] b[j]
        by {
        assert(rs2[i].spec_line_number() < rs2[j].spec_line_number());
    }
    lemma_sorted_unique(a, b);
    assert forall|k: int|
        0 <= k < rs1.len() implies (#[trigger] rs1[k]).spec_line_number() == (
    #[trigger] rs2[k]).spec_line_number() && rs1[k].spec_content() == rs2[k].spec_content()
        && rs1[k].spec_patterns() == rs2[k].spec_patterns() by {
        assert(a[k] == b[k]);
        assert(result_valid(rs1[k], q, ignore_case, lines, mode));
        assert(result_valid(rs2[k], q, ignore_case, lines, mode));
    }
}

proof fn lemma_nums_membership(
    rs: Seq<SearchResult>,
    nums: Seq<int>,
    q: Seq<char>,
    ignore_case: bool,
    lines: Seq<Seq<char>>,
    mode: ContextMode,
    x: int,
)
    requires
        results_for(rs, q, ignore_case, lines, mode),
        nums =~= Seq::new(rs.len(), |k: int| rs[k].spec_line_number() as int),
    ensures
        nums.contains(x) <==> included_in(q, ignore_case, lines, mode, x),
{
    if nums.contains(x) {
        let k = choose|k: int| 0 <= k < nums.len() && nums[k] == x;
        assert(result_valid(rs[k], q, ignore_case, lines, mode));
    }
    if included_in(q, ignore_case, lines, mode, x) {
        let k = choose|k: int| 0 <= k < rs.len() && #[trigger] rs[k].spec_line_number() == x;
        assert(nums[k] == x);
    }
}

proof fn lemma_pats_matching_nonempty(pats: Seq<Seq<char>>, line: Seq<char>)
    ensures
        pats_matching(pats, line).len() > 0 <==> exists|k: int|
            0 <= k < pats.len() && contains_sub(line, #[trigger] pats[k]),
    decreases pats.len(),
{
    if pats.len() > 0 {
        lemma_pats_matching_nonempty(pats.drop_first(), line);
        if contains_sub(line, pats[0]) {
        } else {
            if pats_matching(pats, line).len() > 0 {
                let k = choose|k: int|
                    0 <= k < pats.drop_first().len() && contains_sub(
                        line,
                        #[trigger] pats.drop_first()[k],
                    );
                assert(contains_sub(line, pats[k + 1]));
            }
            if exists|k: int| 0 <= k < pats.len() && contains_sub(line, #[trigger] pats[k]) {
                let k = choose|k: int|
                    0 <= k < pats.len() && contains_sub(line, #[trigger] pats[k]);
                assert(k > 0);
                assert(contains_sub(line, pats.drop_first()[k - 1]));
            }
        }
    }
}

/// A line's reported pattern list is non-empty exactly when the line
/// itself matches the query: a line included only as context carries no
/// patterns, a matched line always carries at least one.
pub proof fn lemma_patterns_mark_matches(q: Seq<char>, ignore_case: bool, line: Seq<char>)
    ensures
        line_patterns(q, ignore_case, line).len() > 0 <==> line_matched(
            q,
            ignore_case,
            line,
        ),
{
    if !regex_like(q) {
        lemma_pats_matching_nonempty(lit_pats(q, ignore_case), fold_ci(line, ignore_case));
    }
}

/// An empty text yields no results, whatever the query and mode.
pub proof fn lemma_empty_text_no_results(
    rs: Seq<SearchResult>,
    q: Seq<char>,
    ignore_case: bool,
    mode: ContextMode,
)
    requires
        results_for(rs, q, ignore_case, spec_lines(Seq::empty()), mode),
    ensures
        rs.len() == 0,
{
    let lines = spec_lines(Seq::<char>::empty());
    assert(lines =~= Seq::<Seq<char>>::empty());
    if rs.len() > 0 {
        assert(result_valid(rs[0], q, ignore_case, lines, mode));
        assert(included_in(q, ignore_case, lines, mode, rs[0].spec_line_number() as int));
        assert(false);
    }
}

} // verus!
