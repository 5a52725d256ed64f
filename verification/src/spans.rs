//! Match spans for highlighting: every occurrence of a pattern in a line,
//! and the merging of overlapping or touching spans into disjoint runs.
use vstd::prelude::*;
use crate::text::{chars_of, contains_at, match_at};

verus! {

/// A span is well-formed when its start does not pass its end.
pub open spec fn span_wf(s: (usize, usize)) -> bool {
    s.0 <= s.1
}

/// Position `p` lies inside one of the spans (half-open intervals).
pub open spec fn covered(spans: Seq<(usize, usize)>, p: int) -> bool {
    exists|k: int| 0 <= k < spans.len() && (#[trigger] spans[k]).0 <= p < spans[k].1
}

/// Span `s` lies within one of the spans of `outs`.
pub open spec fn span_contained(s: (usize, usize), outs: Seq<(usize, usize)>) -> bool {
    exists|j: int| 0 <= j < outs.len() && (#[trigger] outs[j]).0 <= s.0 && s.1 <= outs[j].1
}

/// Spans are ordered by their start offsets.
pub open spec fn sorted_by_start(spans: Seq<(usize, usize)>) -> bool {
    forall|i: int, j: int|
        0 <= i < j < spans.len() ==> (#[trigger] spans[i]).0 <= (#[trigger] spans[j]).0
}

/// All the occurrences of a pattern in a line, as (start, end) offsets,
/// ascending; the scan advances one position after each hit, so
/// overlapping occurrences are all recorded.  An empty pattern yields no
/// spans.
pub fn literal_spans(line: &str, pat: &str) -> (r: Vec<(usize, usize)>)
    ensures
        pat@.len() == 0 ==> r@.len() == 0,
        forall|k: int|
            0 <= k < r@.len() ==> contains_at(line@, pat@, (#[trigger] r@[k]).0 as int) && r@[k].1
                == r@[k].0 + pat@.len(),
        forall|i: int| contains_at(line@, pat@, i) && pat@.len() > 0 ==> exists|k: int|
            0 <= k < r@.len() && (#[trigger] r@[k]).0 == i,
        forall|k1: int, k2: int|
            0 <= k1 < k2 < r@.len() ==> (#[trigger] r@[k1]).0 < (#[trigger] r@[k2]).0,
{
    let lc = chars_of(line);
    let pc = chars_of(pat);
    let n = lc.len();
    let m = pc.len();
    let mut r: Vec<(usize, usize)> = Vec::new();
    if m == 0 || m > n {
        proof {
            if m > n {
                assert(forall|i: int| !contains_at(line@, pat@, i));
            }
        }
        return r;
    }
    let mut i: usize = 0;
    while i <= n - m
        invariant
            1 <= m <= n,
            n == line@.len(),
            m == pat@.len(),
            lc@ == line@,
            pc@ == pat@,
            i <= n - m + 1,
            forall|k: int|
                0 <= k < r@.len() ==> contains_at(line@, pat@, (#[trigger] r@[k]).0 as int)
                    && r@[k].1 == r@[k].0 + pat@.len() && r@[k].0 < i,
            forall|t: int| 0 <= t < i && contains_at(line@, pat@, t) ==> exists|k: int|
                0 <= k < r@.len() && (#[trigger] r@[k]).0 == t,
            forall|k1: int, k2: int|
                0 <= k1 < k2 < r@.len() ==> (#[trigger] r@[k1]).0 < (#[trigger] r@[k2]).0,
        decreases n - i,
    {
        if match_at(&lc, &pc, i) {
            let ghost prev = r@;
            r.push((i, i + m));
            proof {
                assert forall|t: int|
                    0 <= t < i + 1 && contains_at(line@, pat@, t) implies exists|k: int|
                    0 <= k < r@.len() && (#[trigger] r@[k]).0 == t by {
                    if t == i {
                        assert(r@[r@.len() - 1].0 == t);
                    } else {
                        let k = choose|k: int| 0 <= k < prev.len() && (#[trigger] prev[k]).0 == t;
                        assert(r@[k].0 == t);
                    }
                }
            }
        }
        i = i + 1;
    }
    proof {
        assert(forall|t: int| t > n - m ==> !contains_at(line@, pat@, t));
    }
    r
}

proof fn lemma_covered_push(spans: Seq<(usize, usize)>, s: (usize, usize), p: int)
    ensures
        covered(spans.push(s), p) == (covered(spans, p) || (s.0 <= p < s.1)),
{
    let all = spans.push(s);
    if covered(all, p) {
        let k = choose|k: int| 0 <= k < all.len() && (#[trigger] all[k]).0 <= p < all[k].1;
        if k < spans.len() {
            assert(spans[k].0 <= p < spans[k].1);
        }
    }
    if covered(spans, p) {
        let k = choose|k: int| 0 <= k < spans.len() && (#[trigger] spans[k]).0 <= p < spans[k].1;
        assert(all[k].0 <= p < all[k].1);
    }
    if s.0 <= p < s.1 {
        assert(all[all.len() - 1].0 <= p < all[all.len() - 1].1);
    }
}

proof fn lemma_covered_congruence(a: Seq<(usize, usize)>, b: Seq<(usize, usize)>, p: int)
    requires
        forall|x: (usize, usize)| a.contains(x) <==> b.contains(x),
    ensures
        covered(a, p) == covered(b, p),
{
    if covered(a, p) {
        let k = choose|k: int| 0 <= k < a.len() && (#[trigger] a[k]).0 <= p < a[k].1;
        assert(a.contains(a[k]));
        let j = choose|j: int| 0 <= j < b.len() && b[j] == a[k];
        assert(b[j].0 <= p < b[j].1);
    }
    if covered(b, p) {
        let k = choose|k: int| 0 <= k < b.len() && (#[trigger] b[k]).0 <= p < b[k].1;
        assert(b.contains(b[k]));
        let j = choose|j: int| 0 <= j < a.len() && a[j] == b[k];
        assert(a[j].0 <= p < a[j].1);
    }
}

/// Sorts spans by their start offset; the result holds exactly the spans
/// given.
fn sort_spans(spans: &Vec<(usize, usize)>) -> (r: Vec<(usize, usize)>)
    ensures
        r@.len() == spans@.len(),
        sorted_by_start(r@),
        forall|x: (usize, usize)| r@.contains(x) <==> spans@.contains(x),
{
    let n = spans.len();
    let mut r: Vec<(usize, usize)> = Vec::new();
    let mut k: usize = 0;
    proof {
        assert(forall|x: (usize, usize)| !spans@.take(0).contains(x));
    }
    while k < n
        invariant
            k <= n,
            n == spans@.len(),
            r@.len() == k,
            sorted_by_start(r@),
            forall|x: (usize, usize)| r@.contains(x) <==> spans@.take(k as int).contains(x),
        decreases n - k,
    {
        let x = spans[k];
        let mut pos: usize = 0;
        while pos < r.len() && r[pos].0 <= x.0
            invariant
                pos <= r@.len(),
                forall|j: int| 0 <= j < pos ==> (#[trigger] r@[j]).0 <= x.0,
            decreases r@.len() - pos,
        {
            pos = pos + 1;
        }
        let ghost prev = r@;
        r.insert(pos, x);
        proof {
            prev.insert_ensures(pos as int, x);
            assert forall|i: int, j: int|
                0 <= i < j < r@.len() implies (#[trigger] r@[i]).0 <= (#[trigger] r@[j]).0 by {
                if j < pos {
                    assert(r@[i] == prev[i] && r@[j] == prev[j]);
                } else if i > pos {
                    assert(r@[i] == prev[i - 1] && r@[j] == prev[j - 1]);
                } else if i < pos && j == pos {
                    assert(r@[i] == prev[i]);
                } else if i < pos && j > pos {
                    assert(r@[i] == prev[i] && r@[j] == prev[j - 1]);
                } else if i == pos && j > pos {
                    assert(r@[j] == prev[j - 1]);
                    assert(pos < prev.len() + 1);
                    assert(prev[j - 1].0 >= x.0) by {
                        if prev[j - 1].0 < x.0 {
                            assert(prev[(pos) as int].0 > x.0 || pos == prev.len());
                            assert((j - 1) >= pos);
                            assert(prev[pos as int].0 <= prev[j - 1].0);
                        }
                    }
                }
            }
            assert forall|y: (usize, usize)| r@.contains(y) <==> spans@.take(k + 1).contains(
                y,
            ) by {
                assert(spans@.take(k + 1) =~= spans@.take(k as int).push(x));
                if r@.contains(y) {
                    let i = choose|i: int| 0 <= i < r@.len() && r@[i] == y;
                    if i < pos {
                        assert(prev[i] == y);
                        assert(prev.contains(y));
                    } else if i == pos {
                        assert(y == x);
                        assert(spans@.take(k + 1)[k as int] == x);
                    } else {
                        assert(prev[i - 1] == y);
                        assert(prev.contains(y));
                    }
                    if prev.contains(y) {
                        let t = choose|t: int|
                            0 <= t < spans@.take(k as int).len() && spans@.take(k as int)[t] == y;
                        assert(spans@.take(k + 1)[t] == y);
                    }
                }
                if spans@.take(k + 1).contains(y) {
                    let t = choose|t: int|
                        0 <= t < spans@.take(k + 1).len() && #[trigger] spans@.take(k + 1)[t] == y;
                    if t < k {
                        assert(spans@.take(k as int)[t] == y);
                        assert(prev.contains(y));
                        let i = choose|i: int| 0 <= i < prev.len() && prev[i] == y;
                        if i < pos {
                            assert(r@[i] == y);
                        } else {
                            assert(r@[i + 1] == y);
                        }
                    } else {
                        assert(y == x);
                        assert(r@[pos as int] == y);
                    }
                }
            }
        }
        k = k + 1;
    }
    proof {
        assert(spans@.take(n as int) =~= spans@);
    }
    r
}

/// Merges a pool of well-formed spans into the least list of disjoint,
/// ascending spans covering the same positions: spans that overlap or
/// touch coalesce into one.  Every input span lies inside some output
/// span, and the output spans are separated by at least one position, so
/// no further merging is possible.
pub fn merge_spans(spans: Vec<(usize, usize)>) -> (r: Vec<(usize, usize)>)
    requires
        forall|k: int| 0 <= k < spans@.len() ==> span_wf(#[trigger] spans@[k]),
    ensures
        forall|k: int| 0 <= k < r@.len() ==> span_wf(#[trigger] r@[k]),
        forall|k: int| 0 <= k < r@.len() - 1 ==> (#[trigger] r@[k]).1 < r@[k + 1].0,
        forall|p: int| covered(r@, p) == covered(spans@, p),
        forall|k: int| 0 <= k < spans@.len() ==> span_contained(#[trigger] spans@[k], r@),
{
    let sorted = sort_spans(&spans);
    proof {
        assert forall|k: int| 0 <= k < sorted@.len() implies span_wf(#[trigger] sorted@[k]) by {
            assert(sorted@.contains(sorted@[k]));
            let t = choose|t: int| 0 <= t < spans@.len() && spans@[t] == sorted@[k];
            assert(span_wf(spans@[t]));
        }
    }
    let mut out: Vec<(usize, usize)> = Vec::new();
    if sorted.len() == 0 {
        proof {
            assert forall|p: int| covered(out@, p) == covered(spans@, p) by {
                lemma_covered_congruence(out@, spans@, p);
            }
            assert(spans@.len() == 0);
        }
        return out;
    }
    let ghost sv = sorted@;
    let mut cur: (usize, usize) = sorted[0];
    let mut k: usize = 1;
    proof {
        assert(sv.take(1) =~= Seq::empty().push(sv[0]));
        assert forall|p: int| (covered(out@, p) || (cur.0 <= p < cur.1)) == covered(
            sv.take(1),
            p,
        ) by {
            lemma_covered_push(Seq::empty(), sv[0], p);
            assert(!covered(Seq::empty(), p));
            assert(!covered(out@, p));
        }
    }
    while k < sorted.len()
        invariant
            1 <= k <= sv.len(),
            sv == sorted@,
            sorted_by_start(sv),
            forall|t: int| 0 <= t < sv.len() ==> span_wf(#[trigger] sv[t]),
            span_wf(cur),
            forall|j: int| 0 <= j < out@.len() ==> span_wf(#[trigger] out@[j]),
            forall|j: int| 0 <= j < out@.len() - 1 ==> (#[trigger] out@[j]).1 < out@[j + 1].0,
            out@.len() > 0 ==> out@[out@.len() - 1].1 < cur.0,
            forall|t: int| k <= t < sv.len() ==> (#[trigger] sv[t]).0 >= cur.0,
            forall|p: int| #![trigger covered(sv.take(k as int), p)]
                (covered(out@, p) || (cur.0 <= p < cur.1)) == covered(sv.take(k as int), p),
            forall|t: int| 0 <= t < k ==> ((exists|j: int|
                0 <= j < out@.len() && (#[trigger] out@[j]).0 <= (#[trigger] sv[t]).0 && sv[t].1
                    <= out@[j].1) || (cur.0 <= sv[t].0 && sv[t].1 <= cur.1)),
        decreases sv.len() - k,
    {
        let s = sorted[k];
        let ghost old_out = out@;
        let ghost old_cur = cur;
        if s.0 <= cur.1 {
            if s.1 > cur.1 {
                cur = (cur.0, s.1);
            }
        } else {
            out.push(cur);
            cur = s;
        }
        proof {
            assert(sv.take(k + 1) =~= sv.take(k as int).push(s));
            assert(s == sv[k as int]);
            assert(s.0 >= old_cur.0);
            assert(span_wf(s));
            assert forall|p: int| (covered(out@, p) || (cur.0 <= p < cur.1)) == covered(
                sv.take(k + 1),
                p,
            ) by {
                lemma_covered_push(sv.take(k as int), s, p);
                assert((covered(old_out, p) || (old_cur.0 <= p < old_cur.1)) == covered(
                    sv.take(k as int),
                    p,
                ));
                if s.0 <= old_cur.1 {
                    assert(out@ == old_out);
                    assert((cur.0 <= p < cur.1) == ((old_cur.0 <= p < old_cur.1) || (s.0 <= p
                        < s.1)));
                } else {
                    lemma_covered_push(old_out, old_cur, p);
                    assert(out@ =~= old_out.push(old_cur));
                }
            }
            assert forall|t: int|
                0 <= t < k + 1 implies ((exists|j: int|
                0 <= j < out@.len() && (#[trigger] out@[j]).0 <= (#[trigger] sv[t]).0 && sv[t].1
                    <= out@[j].1) || (cur.0 <= sv[t].0 && sv[t].1 <= cur.1)) by {
                if s.0 <= old_cur.1 {
                    // cur only widened; old containments still hold
                    if t < k {
                        if !(old_cur.0 <= sv[t].0 && sv[t].1 <= old_cur.1) {
                            let j = choose|j: int|
                                0 <= j < old_out.len() && (#[trigger] old_out[j]).0 <= sv[t].0
                                    && sv[t].1 <= old_out[j].1;
                            assert(out@[j].0 <= sv[t].0 && sv[t].1 <= out@[j].1);
                        }
                    } else {
                        assert(cur.0 <= s.0 && s.1 <= cur.1);
                    }
                } else {
                    if t < k {
                        if !(old_cur.0 <= sv[t].0 && sv[t].1 <= old_cur.1) {
                            let j = choose|j: int|
                                0 <= j < old_out.len() && (#[trigger] old_out[j]).0 <= sv[t].0
                                    && sv[t].1 <= old_out[j].1;
                            assert(out@[j].0 <= sv[t].0 && sv[t].1 <= out@[j].1);
                        } else {
                            assert(out@[out@.len() - 1] == old_cur);
                        }
                    }
                }
            }
        }
        k = k + 1;
    }
    let ghost old_out = out@;
    out.push(cur);
    proof {
        assert(k == sv.len());
        assert(sv.take(k as int) =~= sv);
        assert(out@ =~= old_out.push(cur));
        assert forall|p: int| covered(out@, p) == covered(spans@, p) by {
            lemma_covered_push(old_out, cur, p);
            assert((covered(old_out, p) || (cur.0 <= p < cur.1)) == covered(sv.take(k as int), p));
            lemma_covered_congruence(sv, spans@, p);
        }
        assert forall|t: int| 0 <= t < spans@.len() implies span_contained(
            #[trigger] spans@[t],
            out@,
        ) by {
            assert(spans@.contains(spans@[t]));
            let i = choose|i: int| 0 <= i < sv.len() && sv[i] == spans@[t];
            if !(cur.0 <= sv[i].0 && sv[i].1 <= cur.1) {
                let j = choose|j: int|
                    0 <= j < old_out.len() && (#[trigger] old_out[j]).0 <= sv[i].0 && sv[i].1
                        <= old_out[j].1;
                assert(out@[j].0 <= spans@[t].0 && spans@[t].1 <= out@[j].1);
            } else {
                assert(out@[out@.len() - 1] == cur);
            }
        }
    }
    out
}

} // verus!
