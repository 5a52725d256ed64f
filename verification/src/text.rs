//! Character-level text utilities: turning a `&str` into its characters,
//! substring containment, and non-overlapping occurrence counting.
use vstd::prelude::*;

verus! {

/// Collects the characters of a string into a vector, so that the rest of
/// the library can index them in constant time.
pub fn chars_of(s: &str) -> (r: Vec<char>)
    ensures
        r@ == s@,
{
    let n = s.unicode_len();
    let mut r: Vec<char> = Vec::new();
    let mut i: usize = 0;
    while i < n
        invariant
            i <= n,
            n == s@.len(),
            r@ == s@.take(i as int),
        decreases n - i,
    {
        r.push(s.get_char(i));
        i = i + 1;
        proof {
            assert(r@ =~= s@.take(i as int));
        }
    }
    proof {
        assert(r@ =~= s@);
    }
    r
}

/// Character-by-character string equality, stated over the views.
pub fn str_equal(a: &str, b: &str) -> (r: bool)
    ensures
        r == (a@ == b@),
{
    let na = a.unicode_len();
    let nb = b.unicode_len();
    if na != nb {
        proof {
            assert(a@ != b@) by {
                assert(a@.len() != b@.len());
            }
        }
        return false;
    }
    let mut i: usize = 0;
    while i < na
        invariant
            i <= na,
            na == a@.len(),
            na == b@.len(),
            forall|k: int| 0 <= k < i ==> a@[k] == b@[k],
        decreases na - i,
    {
        if a.get_char(i) != b.get_char(i) {
            return false;
        }
        i = i + 1;
    }
    proof {
        assert(a@ =~= b@);
    }
    true
}

/// The pattern `p` occurs in `l` starting at position `i`.
pub open spec fn contains_at(l: Seq<char>, p: Seq<char>, i: int) -> bool {
    0 <= i && i + p.len() <= l.len() && l.subrange(i, i + p.len()) == p
}

/// The pattern `p` occurs somewhere in `l`.  An empty pattern occurs in
/// every string, the empty one included.
pub open spec fn contains_sub(l: Seq<char>, p: Seq<char>) -> bool {
    exists|i: int| contains_at(l, p, i)
}

/// Checks one candidate position for an occurrence of `p` in `l`.
pub fn match_at(l: &Vec<char>, p: &Vec<char>, i: usize) -> (r: bool)
    requires
        i + p@.len() <= l@.len(),
    ensures
        r == contains_at(l@, p@, i as int),
{
    let n = l.len();
    let m = p.len();
    let mut j: usize = 0;
    while j < m
        invariant
            j <= m,
            n == l@.len(),
            m == p@.len(),
            i + m <= n,
            forall|k: int| 0 <= k < j ==> l@[i + k] == p@[k],
        decreases m - j,
    {
        if l[i + j] != p[j] {
            proof {
                assert(l@.subrange(i as int, i + p@.len()) != p@) by {
                    assert(l@.subrange(i as int, i + p@.len())[j as int] == l@[i + j]);
                }
            }
            return false;
        }
        j = j + 1;
    }
    proof {
        assert(l@.subrange(i as int, i + p@.len()) =~= p@);
    }
    true
}

/// Decides whether `p` occurs anywhere in `l`.
pub fn contains_exec(l: &Vec<char>, p: &Vec<char>) -> (r: bool)
    ensures
        r == contains_sub(l@, p@),
{
    let n = l.len();
    let m = p.len();
    if m == 0 {
        proof {
            assert(l@.subrange(0, 0) =~= p@);
            assert(contains_at(l@, p@, 0));
        }
        return true;
    }
    if m > n {
        proof {
            assert(forall|i: int| !contains_at(l@, p@, i));
        }
        return false;
    }
    let mut i: usize = 0;
    while i <= n - m
        invariant
            1 <= m <= n,
            n == l@.len(),
            m == p@.len(),
            i <= n - m + 1,
            forall|k: int| 0 <= k < i ==> !contains_at(l@, p@, k),
        decreases n - i,
    {
        if match_at(l, p, i) {
            return true;
        }
        i = i + 1;
    }
    proof {
        assert(forall|k: int| !contains_at(l@, p@, k)) by {
            assert(forall|k: int| k > n - m ==> !contains_at(l@, p@, k));
        }
    }
    false
}

/// Number of non-overlapping occurrences of `p` in `l`, scanning from the
/// left and skipping past each occurrence found.  An empty pattern counts
/// as zero occurrences.
pub open spec fn count_occ(l: Seq<char>, p: Seq<char>) -> nat
    decreases l.len(),
{
    if p.len() == 0 || l.len() < p.len() {
        0
    } else if contains_at(l, p, 0) {
        1 + count_occ(l.skip(p.len() as int), p)
    } else {
        count_occ(l.skip(1), p)
    }
}

proof fn lemma_contains_at_shift(l: Seq<char>, p: Seq<char>, s: int, i: int)
    requires
        0 <= s <= l.len(),
        0 <= i,
    ensures
        contains_at(l.skip(s), p, i) == contains_at(l, p, s + i),
{
    if i + p.len() <= l.skip(s).len() {
        assert(l.skip(s).subrange(i, i + p.len() as int) =~= l.subrange(s + i, s + i + p.len()));
    }
}

proof fn lemma_count_occ_bound(l: Seq<char>, p: Seq<char>)
    ensures
        count_occ(l, p) <= l.len(),
    decreases l.len(),
{
    if p.len() == 0 || l.len() < p.len() {
    } else if contains_at(l, p, 0) {
        lemma_count_occ_bound(l.skip(p.len() as int), p);
    } else {
        lemma_count_occ_bound(l.skip(1), p);
    }
}

/// Counts the non-overlapping occurrences of `p` in `l`, scanning from the
/// left; after a hit the scan resumes just past the matched characters.
pub fn count_occurrences(l: &Vec<char>, p: &Vec<char>) -> (c: usize)
    ensures
        c == count_occ(l@, p@),
{
    let n = l.len();
    let m = p.len();
    if m == 0 {
        return 0;
    }
    let mut c: usize = 0;
    let mut start: usize = 0;
    proof {
        assert(l@.skip(0) =~= l@);
    }
    while start < n
        invariant
            start <= n,
            n == l@.len(),
            m == p@.len(),
            m >= 1,
            c + count_occ(l@.skip(start as int), p@) == count_occ(l@, p@),
            c <= start,
        decreases n - start,
    {
        if m <= n - start && match_at(l, p, start) {
            proof {
                lemma_contains_at_shift(l@, p@, start as int, 0);
                assert(l@.skip(start as int).skip(m as int) =~= l@.skip(start + m));
            }
            c = c + 1;
            start = start + m;
        } else {
            proof {
                if m <= n - start {
                    lemma_contains_at_shift(l@, p@, start as int, 0);
                }
                assert(l@.skip(start as int).skip(1) =~= l@.skip(start + 1));
            }
            start = start + 1;
        }
    }
    proof {
        assert(l@.skip(n as int) =~= Seq::<char>::empty());
    }
    c
}

} // verus!
