//! The one piece of file-walking logic that is pure: which file names a
//! recursive search skips.
use vstd::prelude::*;

verus! {

/// Whether a file name names a hidden file: one whose name starts with a
/// dot.  A recursive directory search skips such files.
pub fn is_hidden_file(name: &str) -> (r: bool)
    ensures
        r == (name@.len() > 0 && name@[0] == '.'),
{
    name.unicode_len() > 0 && name.get_char(0) == '.'
}

} // verus!
