//! Object paths: the leading separator and the final segment.

use crate::text::chars_of;
use vstd::prelude::*;
use vstd::string::StrSliceExecFns;

verus! {

/// `path` without one leading `/`, if it has one.
pub open spec fn without_leading_slash(path: Seq<char>) -> Seq<char> {
    if path.len() > 0 && path[0] == '/' {
        path.subrange(1, path.len() as int)
    } else {
        path
    }
}

/// `path` without what follows its last segment: separators at the end, and
/// segments that are a single dot.
pub open spec fn trimmed_path(path: Seq<char>) -> Seq<char>
    decreases path.len(),
{
    if path.len() > 0 && path.last() == '/' {
        trimmed_path(path.drop_last())
    } else if path.len() >= 2 && path.last() == '.' && path[path.len() - 2] == '/' {
        trimmed_path(path.drop_last())
    } else {
        path
    }
}

/// Where the last segment of `path` starts: behind the last `/`, or at 0.
pub open spec fn last_segment_start(path: Seq<char>) -> int
    decreases path.len(),
{
    if path.len() == 0 {
        0
    } else if path.last() == '/' {
        path.len() as int
    } else {
        last_segment_start(path.drop_last())
    }
}

/// The last segment of `path`: what follows its last `/`.
pub open spec fn last_segment(path: Seq<char>) -> Seq<char> {
    path.subrange(last_segment_start(path), path.len() as int)
}

/// The file name that `path` ends in: the last segment that is neither empty
/// nor a single dot, unless that segment is `..`.
pub open spec fn file_name(path: Seq<char>) -> Option<Seq<char>> {
    let name = last_segment(trimmed_path(path));
    if name.len() == 0 || name == seq!['.'] || name == seq!['.', '.'] {
        None
    } else {
        Some(name)
    }
}

/// The start of the last segment lies inside the path, and the segment holds
/// no separator.
pub proof fn lemma_last_segment_start(path: Seq<char>)
    ensures
        0 <= last_segment_start(path) <= path.len(),
        forall|i: int| last_segment_start(path) <= i < path.len() ==> path[i] != '/',
        last_segment_start(path) > 0 ==> path[last_segment_start(path) - 1] == '/',
    decreases path.len(),
{
    if path.len() > 0 && path.last() != '/' {
        let shorter = path.drop_last();
        lemma_last_segment_start(shorter);
        assert forall|i: int| last_segment_start(path) <= i < path.len() implies path[i]
            != '/' by {
            if i < shorter.len() {
                assert(path[i] == shorter[i]);
            }
        }
        if last_segment_start(path) > 0 {
            assert(path[last_segment_start(path) - 1] == shorter[last_segment_start(shorter) - 1]);
        }
    }
}

/// Removes one leading `/` from an object path; a path without one is
/// returned as it is.
pub fn strip_leading_slash(path: &str) -> (r: &str)
    ensures
        r@ == without_leading_slash(path@),
{
    let n = path.unicode_len();
    if n > 0 && path.get_char(0) == '/' {
        path.substring_char(1, n)
    } else {
        path
    }
}

/// The file name that an object path ends in, if it has one.
pub fn file_name_of(path: &str) -> (r: Option<String>)
    ensures
        match r {
            Some(name) => file_name(path@) == Some(name@),
            None => file_name(path@) is None,
        },
        r matches Some(name) ==> name@.len() > 0 && forall|i: int|
            0 <= i < name@.len() ==> name@[i] != '/',
{
    let chars = chars_of(path);
    let mut end: usize = chars.len();
    proof {
        assert(path@.take(end as int) =~= path@);
    }
    loop
        invariant
            chars@ == path@,
            end <= chars.len(),
            trimmed_path(path@) == trimmed_path(path@.take(end as int)),
        ensures
            end <= chars.len(),
            trimmed_path(path@) == path@.take(end as int),
        decreases end,
    {
        let ghost prefix = path@.take(end as int);
        if end > 0 && chars[end - 1] == '/' {
            proof {
                assert(prefix.drop_last() =~= path@.take(end - 1));
            }
            end = end - 1;
        } else if end >= 2 && chars[end - 1] == '.' && chars[end - 2] == '/' {
            proof {
                assert(prefix.drop_last() =~= path@.take(end - 1));
            }
            end = end - 1;
        } else {
            break ;
        }
    }
    let ghost trimmed = path@.take(end as int);
    let mut start: usize = end;
    proof {
        assert(trimmed.take(start as int) =~= trimmed);
    }
    while start > 0 && chars[start - 1] != '/'
        invariant
            chars@ == path@,
            start <= end <= chars.len(),
            trimmed == path@.take(end as int),
            last_segment_start(trimmed) == last_segment_start(trimmed.take(start as int)),
        decreases start,
    {
        proof {
            assert(trimmed.take(start as int).drop_last() =~= trimmed.take(start - 1));
        }
        start = start - 1;
    }
    proof {
        assert(trimmed.take(end as int) =~= trimmed);
        assert(last_segment_start(trimmed) == start);
        assert(last_segment(trimmed) =~= path@.subrange(start as int, end as int));
        lemma_last_segment_start(trimmed);
    }
    let length = end - start;
    if length == 0 || (length == 1 && chars[start] == '.') || (length == 2 && chars[start] == '.'
        && chars[start + 1] == '.') {
        proof {
            let name = path@.subrange(start as int, end as int);
            if length == 1 {
                assert(name =~= seq!['.']);
            }
            if length == 2 {
                assert(name =~= seq!['.', '.']);
            }
        }
        None
    } else {
        proof {
            let name = path@.subrange(start as int, end as int);
            if name == seq!['.'] {
                assert(name.len() == 1 && name[0] == '.');
            }
            if name == seq!['.', '.'] {
                assert(name.len() == 2 && name[0] == '.' && name[1] == '.');
            }
        }
        Some(path.substring_char(start, end).to_owned())
    }
}

} // verus!
