//! Query classification: a query containing any regex indicator character
//! is treated as one regular expression; any other query is split on `'|'`
//! into literal sub-patterns, each trimmed of surrounding whitespace.
use vstd::prelude::*;
use crate::text::chars_of;

verus! {

/// The characters whose presence makes a query count as a regular
/// expression rather than a literal.
pub open spec fn indicator_char(c: char) -> bool {
    ||| c == '*'
    ||| c == '+'
    ||| c == '?'
    ||| c == '.'
    ||| c == '\\'
    ||| c == '['
    ||| c == ']'
    ||| c == '('
    ||| c == ')'
    ||| c == '{'
    ||| c == '}'
    ||| c == '^'
    ||| c == '$'
}

/// A query is regex-like when it contains at least one indicator character.
pub open spec fn regex_like(q: Seq<char>) -> bool {
    exists|i: int| 0 <= i < q.len() && indicator_char(q[i])
}

fn is_indicator(c: char) -> (r: bool)
    ensures
        r == indicator_char(c),
{
    c == '*' || c == '+' || c == '?' || c == '.' || c == '\\' || c == '[' || c == ']'
        || c == '(' || c == ')' || c == '{' || c == '}' || c == '^' || c == '$'
}

/// The whitespace characters that trimming removes; the set `char::is_whitespace`
/// recognizes (the Unicode `White_Space` property).
pub open spec fn space_char(c: char) -> bool {
    ||| c == ' '
    ||| c == '\t'
    ||| c == '\n'
    ||| c == '\u{b}'
    ||| c == '\u{c}'
    ||| c == '\r'
    ||| c == '\u{85}'
    ||| c == '\u{a0}'
    ||| c == '\u{1680}'
    ||| ('\u{2000}' <= c && c <= '\u{200a}')
    ||| c == '\u{2028}'
    ||| c == '\u{2029}'
    ||| c == '\u{202f}'
    ||| c == '\u{205f}'
    ||| c == '\u{3000}'
}

fn is_space(c: char) -> (r: bool)
    ensures
        r == space_char(c),
{
    c == ' ' || c == '\t' || c == '\n' || c == '\u{b}' || c == '\u{c}' || c == '\r'
        || c == '\u{85}' || c == '\u{a0}' || c == '\u{1680}'
        || ('\u{2000}' <= c && c <= '\u{200a}') || c == '\u{2028}' || c == '\u{2029}'
        || c == '\u{202f}' || c == '\u{205f}' || c == '\u{3000}'
}

/// `s` without its leading whitespace.
pub open spec fn trim_front(s: Seq<char>) -> Seq<char>
    decreases s.len(),
{
    if s.len() > 0 && space_char(s[0]) {
        trim_front(s.drop_first())
    } else {
        s
    }
}

/// `s` without its trailing whitespace.
pub open spec fn trim_back(s: Seq<char>) -> Seq<char>
    decreases s.len(),
{
    if s.len() > 0 && space_char(s[s.len() - 1]) {
        trim_back(s.drop_last())
    } else {
        s
    }
}

/// `s` without surrounding whitespace.
pub open spec fn spec_trim(s: Seq<char>) -> Seq<char> {
    trim_back(trim_front(s))
}

/// The literal sub-patterns of `s`, read left to right with `cur` holding
/// the characters gathered since the last `'|'`; every part is trimmed.
pub open spec fn patterns_from(s: Seq<char>, cur: Seq<char>) -> Seq<Seq<char>>
    decreases s.len(),
{
    if s.len() == 0 {
        seq![spec_trim(cur)]
    } else if s[0] == '|' {
        seq![spec_trim(cur)] + patterns_from(s.drop_first(), Seq::empty())
    } else {
        patterns_from(s.drop_first(), cur.push(s[0]))
    }
}

/// The literal sub-patterns of a query: the parts between `'|'` characters,
/// each trimmed.  A query with no `'|'` yields itself, trimmed, as the one
/// pattern; an empty query yields one empty pattern.
pub open spec fn spec_patterns(q: Seq<char>) -> Seq<Seq<char>> {
    patterns_from(q, Seq::empty())
}

/// A classified query: either a list of literal sub-patterns or a single
/// regular-expression pattern, taken verbatim.
pub enum QueryKind {
    Literal(Vec<String>),
    Regex(String),
}

proof fn lemma_trim_front_skip(s: Seq<char>, k: int)
    requires
        0 <= k <= s.len(),
        forall|j: int| 0 <= j < k ==> space_char(s[j]),
    ensures
        trim_front(s) == trim_front(s.skip(k)),
    decreases k,
{
    if k > 0 {
        assert(space_char(s[0]));
        assert(s.drop_first() =~= s.skip(1));
        lemma_trim_front_skip(s.skip(1), k - 1);
        assert(s.skip(1).skip(k - 1) =~= s.skip(k));
    } else {
        assert(s.skip(0) =~= s);
    }
}

proof fn lemma_trim_back_take(s: Seq<char>, k: int)
    requires
        0 <= k <= s.len(),
        forall|j: int| k <= j < s.len() ==> space_char(s[j]),
    ensures
        trim_back(s) == trim_back(s.take(k)),
    decreases s.len() - k,
{
    if k < s.len() {
        assert(space_char(s[s.len() - 1]));
        assert(s.drop_last() =~= s.take(s.len() - 1));
        lemma_trim_back_take(s.take(s.len() - 1), k);
        assert(s.take(s.len() - 1).take(k) =~= s.take(k));
    } else {
        assert(s.take(k) =~= s);
    }
}

/// Extracts `s[start..end]` with surrounding whitespace removed, where
/// `chars` holds the characters of `s`.
fn trimmed_part(s: &str, chars: &Vec<char>, start: usize, end: usize) -> (r: String)
    requires
        chars@ == s@,
        start <= end <= s@.len(),
    ensures
        r@ == spec_trim(s@.subrange(start as int, end as int)),
{
    let ghost part = s@.subrange(start as int, end as int);
    let mut ts: usize = start;
    while ts < end && is_space(chars[ts])
        invariant
            start <= ts <= end <= s@.len(),
            chars@ == s@,
            forall|j: int| start <= j < ts ==> space_char(s@[j]),
        decreases end - ts,
    {
        ts = ts + 1;
    }
    proof {
        assert(forall|j: int| 0 <= j < ts - start ==> space_char(part[j]));
        lemma_trim_front_skip(part, ts - start);
        assert(part.skip(ts - start) =~= s@.subrange(ts as int, end as int));
    }
    let ghost front = s@.subrange(ts as int, end as int);
    let mut te: usize = end;
    while te > ts && is_space(chars[te - 1])
        invariant
            ts <= te <= end <= s@.len(),
            chars@ == s@,
            forall|j: int| te <= j < end ==> space_char(s@[j]),
        decreases te,
    {
        te = te - 1;
    }
    proof {
        assert(forall|j: int| te - ts <= j < front.len() ==> space_char(front[j]));
        lemma_trim_back_take(front, te - ts);
        assert(front.take(te - ts) =~= s@.subrange(ts as int, te as int));
        assert(ts == end || !space_char(front[0]));
        assert(trim_front(part) == front);
    }
    let r = s.substring_char(ts, te);
    r.to_owned()
}

/// Splits a query into its trimmed literal sub-patterns.
pub fn split_query(query: &str) -> (r: Vec<String>)
    ensures
        r.deep_view() == spec_patterns(query@),
{
    let chars = chars_of(query);
    let n = query.unicode_len();
    let mut r: Vec<String> = Vec::new();
    let mut start: usize = 0;
    let mut i: usize = 0;
    proof {
        assert(query@.skip(0) =~= query@);
        assert(query@.subrange(0, 0) =~= Seq::<char>::empty());
    }
    while i < n
        invariant
            start <= i <= n,
            n == query@.len(),
            chars@ == query@,
            r.deep_view() + patterns_from(
                query@.skip(i as int),
                query@.subrange(start as int, i as int),
            ) == spec_patterns(query@),
        decreases n - i,
    {
        let ghost prev = r.deep_view();
        let ghost rest = query@.skip(i as int);
        let ghost cur = query@.subrange(start as int, i as int);
        proof {
            assert(rest[0] == query@[i as int]);
            assert(rest.drop_first() =~= query@.skip(i + 1));
        }
        if chars[i] == '|' {
            let part = trimmed_part(query, &chars, start, i);
            r.push(part);
            proof {
                assert(r.deep_view() =~= prev.push(spec_trim(cur)));
                assert(prev.push(spec_trim(cur)) + patterns_from(query@.skip(i + 1), Seq::empty())
                    =~= prev + (seq![spec_trim(cur)] + patterns_from(
                    query@.skip(i + 1),
                    Seq::empty(),
                )));
                assert(query@.subrange(i + 1, i + 1) =~= Seq::<char>::empty());
            }
            start = i + 1;
            i = i + 1;
        } else {
            proof {
                assert(cur.push(query@[i as int]) =~= query@.subrange(start as int, i + 1));
            }
            i = i + 1;
        }
    }
    let ghost prev = r.deep_view();
    let part = trimmed_part(query, &chars, start, n);
    r.push(part);
    proof {
        assert(query@.skip(n as int) =~= Seq::<char>::empty());
        assert(r.deep_view() =~= prev.push(spec_trim(query@.subrange(start as int, n as int))));
        assert(prev.push(spec_trim(query@.subrange(start as int, n as int)))
            =~= prev + seq![spec_trim(query@.subrange(start as int, n as int))]);
    }
    r
}

/// Decides whether a query is regex-like.
pub fn is_regex_like(query: &str) -> (r: bool)
    ensures
        r == regex_like(query@),
{
    let chars = chars_of(query);
    let n = chars.len();
    let mut i: usize = 0;
    while i < n
        invariant
            i <= n,
            n == query@.len(),
            chars@ == query@,
            forall|k: int| 0 <= k < i ==> !indicator_char(query@[k]),
        decreases n - i,
    {
        if is_indicator(chars[i]) {
            return true;
        }
        i = i + 1;
    }
    false
}

/// Classifies a query: regex-like queries are kept whole, as one pattern;
/// literal queries are split on `'|'` into trimmed sub-patterns.
pub fn classify(query: &str) -> (r: QueryKind)
    ensures
        match r {
            QueryKind::Regex(p) => regex_like(query@) && p@ == query@,
            QueryKind::Literal(pats) => !regex_like(query@) && pats.deep_view() == spec_patterns(
                query@,
            ),
        },
{
    if is_regex_like(query) {
        QueryKind::Regex(query.to_owned())
    } else {
        QueryKind::Literal(split_query(query))
    }
}

} // verus!
