//! Splitting a text into its lines.  A line ends at a `'\n'`; a carriage
//! return just before the newline is not part of the line; a final line
//! without a trailing newline still counts, but a trailing newline does not
//! open an empty last line.
use vstd::prelude::*;

verus! {

/// Drops a single carriage return at the end of a completed line.
pub open spec fn strip_cr(l: Seq<char>) -> Seq<char> {
    if l.len() > 0 && l[l.len() - 1] == '\r' {
        l.drop_last()
    } else {
        l
    }
}

/// The lines of `s`, read left to right with `cur` holding the characters
/// of the line begun so far.
pub open spec fn lines_from(s: Seq<char>, cur: Seq<char>) -> Seq<Seq<char>>
    decreases s.len(),
{
    if s.len() == 0 {
        if cur.len() == 0 {
            Seq::empty()
        } else {
            seq![cur]
        }
    } else if s[0] == '\n' {
        seq![strip_cr(cur)] + lines_from(s.drop_first(), Seq::empty())
    } else {
        lines_from(s.drop_first(), cur.push(s[0]))
    }
}

/// The line sequence of a text.
pub open spec fn spec_lines(s: Seq<char>) -> Seq<Seq<char>> {
    lines_from(s, Seq::empty())
}

/// Splits a text into its lines.
pub fn split_lines(text: &str) -> (r: Vec<String>)
    ensures
        r.deep_view() == spec_lines(text@),
{
    let n = text.unicode_len();
    let mut r: Vec<String> = Vec::new();
    let mut start: usize = 0;
    let mut i: usize = 0;
    proof {
        assert(text@.skip(0) =~= text@);
        assert(text@.subrange(0, 0) =~= Seq::<char>::empty());
    }
    while i < n
        invariant
            start <= i <= n,
            n == text@.len(),
            r.deep_view() + lines_from(text@.skip(i as int), text@.subrange(start as int, i as int))
                == spec_lines(text@),
        decreases n - i,
    {
        let ghost prev = r.deep_view();
        let ghost rest = text@.skip(i as int);
        let ghost cur = text@.subrange(start as int, i as int);
        let c = text.get_char(i);
        proof {
            assert(rest[0] == text@[i as int]);
            assert(rest.drop_first() =~= text@.skip(i + 1));
        }
        if c == '\n' {
            // The line ends here; a '\r' just before it is dropped.
            let end = if i > start && text.get_char(i - 1) == '\r' {
                i - 1
            } else {
                i
            };
            proof {
                assert(strip_cr(cur) =~= text@.subrange(start as int, end as int));
            }
            let line = text.substring_char(start, end);
            r.push(line.to_owned());
            proof {
                assert(r.deep_view() =~= prev.push(text@.subrange(start as int, end as int)));
                assert(prev.push(strip_cr(cur)) + lines_from(text@.skip(i + 1), Seq::empty())
                    =~= prev + (seq![strip_cr(cur)] + lines_from(text@.skip(i + 1), Seq::empty())));
                assert(text@.subrange(i + 1, i + 1) =~= Seq::<char>::empty());
            }
            start = i + 1;
            i = i + 1;
        } else {
            proof {
                assert(cur.push(text@[i as int]) =~= text@.subrange(start as int, i + 1));
            }
            i = i + 1;
        }
    }
    proof {
        assert(text@.skip(n as int) =~= Seq::<char>::empty());
    }
    if start < n {
        let ghost prev = r.deep_view();
        let line = text.substring_char(start, n);
        r.push(line.to_owned());
        proof {
            assert(r.deep_view() =~= prev.push(text@.subrange(start as int, n as int)));
            assert(prev.push(text@.subrange(start as int, n as int))
                =~= prev + seq![text@.subrange(start as int, n as int)]);
        }
    } else {
        proof {
            assert(text@.subrange(start as int, n as int).len() == 0);
            assert(r.deep_view() + Seq::<Seq<char>>::empty() =~= r.deep_view());
        }
    }
    r
}

} // verus!
