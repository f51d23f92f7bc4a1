//! Listing the log files under a directory.
//!
//! The walk itself is driven outside, over
//! [`crate::log_file::LogFilePathIterator`]; here stands what the
//! listing computes: whether a path names a log file, and how a path is
//! made relative to the root for the non-absolute listing.

use vstd::prelude::*;
use crate::text::has_prefix;
use crate::text::str_chars;
use crate::text::chars_to_string;

verus! {

/// Lists the log files under a root directory, absolute or relative.
#[derive(Debug)]
pub struct ListCommand {
    pub root: String,
    pub absolute: bool,
}

/// A path made relative to `root`: the remainder after the root and one
/// separating `/`, when the root is a prefix; nothing otherwise.
pub open spec fn spec_relative_to(path: Seq<char>, root: Seq<char>) -> Option<Seq<char>> {
    if has_prefix(path, root) {
        let rest = path.skip(root.len() as int);
        if rest.len() > 0 && rest[0] == '/' {
            Some(rest.drop_first())
        } else {
            Some(rest)
        }
    } else {
        None
    }
}

/// Strips the root from a path for the relative listing.
pub fn strip_path_prefix(path: &str, root: &str) -> (r: Option<String>)
    ensures
        match r {
            Some(s) => spec_relative_to(path@, root@) == Some(s@),
            None => spec_relative_to(path@, root@) is None,
        },
{
    let pc = str_chars(path);
    let rc = str_chars(root);
    if !crate::text::starts_with_chars(&pc, &rc) {
        return None;
    }
    let mut start: usize = rc.len();
    if start < pc.len() && pc[start] == '/' {
        start = start + 1;
        proof {
            assert(path@.skip(root@.len() as int).drop_first() =~= path@.skip(start as int));
        }
    }
    let mut out: Vec<char> = Vec::new();
    let mut i: usize = start;
    while i < pc.len()
        invariant
            start <= i <= pc.len(),
            pc@ == path@,
            out@ == path@.subrange(start as int, i as int),
        decreases pc.len() - i,
    {
        out.push(pc[i]);
        assert(out@ =~= path@.subrange(start as int, i + 1));
        i = i + 1;
    }
    proof {
        assert(out@ =~= path@.skip(start as int));
    }
    Some(chars_to_string(&out))
}

} // verus!
