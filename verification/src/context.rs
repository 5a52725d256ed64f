//! Context windows around matched lines: the flag naming the window shape,
//! the window relation itself, and the expansion of a set of matched lines
//! into the full set of included lines, clamped to the text's bounds.
use vstd::prelude::*;
use crate::text::str_equal;

verus! {

/// The context flag a caller selects on the command line.
#[derive(PartialEq, Eq, Structural)]
pub enum ContextFlag {
    /// Display lines before matches
    Before,
    /// Display lines after matches
    After,
    /// Display lines before and after matches
    Context,
    /// Display search statistics
    Stats,
}

impl ContextFlag {
    /// Creates a ContextFlag from its string representation; only the four
    /// valid flag strings are accepted.
    pub fn new(flag: &str) -> (r: Self)
        requires
            flag@ == "before"@ || flag@ == "after"@ || flag@ == "context"@ || flag@ == "stats"@,
        ensures
            flag@ == "before"@ ==> r == ContextFlag::Before,
            flag@ == "after"@ ==> r == ContextFlag::After,
            flag@ == "context"@ ==> r == ContextFlag::Context,
            flag@ == "stats"@ ==> r == ContextFlag::Stats,
    {
        proof {
            reveal_strlit("stats");
            reveal_strlit("before");
            reveal_strlit("after");
            reveal_strlit("context");
            // the four flag strings are pairwise distinct
            assert("before"@.len() == 6);
            assert("context"@.len() == 7);
            assert("after"@.len() == 5);
            assert("stats"@.len() == 5);
            assert("after"@[0] == 'a');
            assert("stats"@[0] == 's');
        }
        if str_equal(flag, "before") {
            Self::Before
        } else if str_equal(flag, "after") {
            Self::After
        } else if str_equal(flag, "context") {
            Self::Context
        } else {
            Self::Stats
        }
    }

    /// Returns the string representation of this ContextFlag.
    pub fn as_str(&self) -> (r: &str)
        ensures
            *self == ContextFlag::Before ==> r@ == "before"@,
            *self == ContextFlag::After ==> r@ == "after"@,
            *self == ContextFlag::Context ==> r@ == "context"@,
            *self == ContextFlag::Stats ==> r@ == "stats"@,
    {
        match self {
            ContextFlag::Before => "before",
            ContextFlag::After => "after",
            ContextFlag::Context => "context",
            ContextFlag::Stats => "stats",
        }
    }
}

/// The shape of the context window around each matched line.
#[derive(Clone, Copy, Debug, PartialEq, Eq, Structural)]
pub enum ContextMode {
    /// Matched lines only.
    Off,
    /// So many lines before each match.
    Before(usize),
    /// So many lines after each match.
    After(usize),
    /// So many lines on both sides of each match.
    Around(usize),
}

/// The mode a search runs under, given the context flag string and the
/// optional line count.  Without a count there is no context; an unknown
/// flag string means no context; the `"stats"` flag asks for no lines.
pub open spec fn spec_mode(flag: Seq<char>, count: Option<usize>) -> ContextMode {
    match count {
        Option::None => ContextMode::Off,
        Option::Some(c) => if flag == "before"@ {
            ContextMode::Before(c)
        } else if flag == "after"@ {
            ContextMode::After(c)
        } else if flag == "context"@ {
            ContextMode::Around(c)
        } else {
            ContextMode::Off
        },
    }
}

/// Reads the context mode off the flag string and the optional count.
pub fn context_mode_of(flag: &str, count: Option<usize>) -> (m: ContextMode)
    ensures
        m == spec_mode(flag@, count),
{
    match count {
        Option::None => ContextMode::Off,
        Option::Some(c) => {
            if str_equal(flag, "before") {
                ContextMode::Before(c)
            } else if str_equal(flag, "after") {
                ContextMode::After(c)
            } else if str_equal(flag, "context") {
                ContextMode::Around(c)
            } else {
                ContextMode::Off
            }
        },
    }
}

/// Line `j` lies in the context window that a match on line `l` opens.
/// The window for `Before` reaches up to `count` lines back, the one for
/// `After` up to `count` lines forward, and `Around` both ways; the match
/// line itself is included regardless, so the window relation need not
/// treat it specially.
pub open spec fn in_window(j: int, l: int, mode: ContextMode) -> bool {
    match mode {
        ContextMode::Off => false,
        ContextMode::Before(c) => l - c <= j < l,
        ContextMode::After(c) => l < j <= l + c,
        ContextMode::Around(c) => l - c <= j <= l + c,
    }
}

/// Expands a set of matched lines — given as one mark per line — into the
/// set of included lines: every match, plus every line in some match's
/// context window.  Windows are clamped to the text's bounds simply by
/// there being no mark outside them.
pub fn expand_context(matched: &Vec<bool>, mode: ContextMode) -> (r: Vec<bool>)
    ensures
        r@.len() == matched@.len(),
        forall|j: int|
            0 <= j < matched@.len() ==> r@[j] == (matched@[j] || exists|l: int|
                0 <= l < matched@.len() && #[trigger] matched@[l] && in_window(j, l, mode)),
{
    let n = matched.len();
    let mut r: Vec<bool> = Vec::new();
    let mut j: usize = 0;
    while j < n
        invariant
            j <= n,
            n == matched@.len(),
            r@.len() == j,
            forall|t: int|
                0 <= t < j ==> r@[t] == (matched@[t] || exists|l: int|
                    0 <= l < n && #[trigger] matched@[l] && in_window(t, l, mode)),
        decreases n - j,
    {
        // The lines whose window could cover `j` form one index interval;
        // scan it for a match.
        let (lo, hi): (usize, usize) = match mode {
            ContextMode::Off => (j, j),
            ContextMode::Before(c) => {
                // a match on l shows j when j < l <= j + c
                let hi = if c >= n - 1 - j {
                    n - 1
                } else {
                    j + c
                };
                (j, hi)
            },
            ContextMode::After(c) => {
                // a match on l shows j when j - c <= l < j
                let lo = if c >= j {
                    0
                } else {
                    j - c
                };
                (lo, j)
            },
            ContextMode::Around(c) => {
                let lo = if c >= j {
                    0
                } else {
                    j - c
                };
                let hi = if c >= n - 1 - j {
                    n - 1
                } else {
                    j + c
                };
                (lo, hi)
            },
        };
        let mut inc = matched[j];
        let mut l = lo;
        while l <= hi
            invariant
                lo <= l <= hi + 1,
                hi < n,
                0 <= j < n,
                n == matched@.len(),
                inc == (matched@[j as int] || exists|t: int|
                    lo <= t < l && #[trigger] matched@[t] && in_window(j as int, t, mode)),
            decreases hi + 1 - l,
        {
            if matched[l] && l != j {
                let covers = match mode {
                    ContextMode::Off => false,
                    ContextMode::Before(c) => j < l && l - j <= c,
                    ContextMode::After(c) => l < j && j - l <= c,
                    ContextMode::Around(c) => if l < j {
                        j - l <= c
                    } else {
                        l - j <= c
                    },
                };
                if covers {
                    inc = true;
                }
            }
            l = l + 1;
        }
        proof {
            // outside [lo, hi] no line's window covers j
            assert(forall|t: int|
                0 <= t < n && #[trigger] matched@[t] && in_window(j as int, t, mode) ==> lo <= t
                    <= hi);
        }
        r.push(inc);
        j = j + 1;
    }
    r
}

} // verus!
