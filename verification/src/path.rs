//! The final component of a slash-separated path, as `Path::file_name`
//! defines it on Unix: trailing separators and `.` components are
//! skipped, and a path that ends in `..` (or has no normal component)
//! has no file name.
use vstd::prelude::*;
use vstd::string::*;
use crate::text::chars_of;

verus! {

/// Where the last segment of `p` (the text after its last '/') starts.
pub open spec fn segment_start(p: Seq<char>) -> int
    decreases p.len(),
{
    if p.len() == 0 {
        0
    } else if p.last() == '/' {
        p.len() as int
    } else {
        segment_start(p.drop_last())
    }
}

/// The file name of path `p`, if it has one.
pub open spec fn file_name_of(p: Seq<char>) -> Option<Seq<char>>
    decreases p.len(),
{
    if p.len() == 0 {
        None
    } else {
        let seg = p.subrange(segment_start(p), p.len() as int);
        if seg.len() == 0 || seg == seq!['.'] {
            file_name_of(p.drop_last())
        } else if seg == seq!['.', '.'] {
            None
        } else {
            Some(seg)
        }
    }
}

proof fn lemma_segment_start_bounds(p: Seq<char>)
    ensures
        0 <= segment_start(p) <= p.len(),
        forall|i: int| segment_start(p) <= i < p.len() ==> p[i] != '/',
        segment_start(p) > 0 ==> p[segment_start(p) - 1] == '/',
    decreases p.len(),
{
    if p.len() > 0 && p.last() != '/' {
        lemma_segment_start_bounds(p.drop_last());
        assert forall|i: int| segment_start(p) <= i < p.len() implies p[i] != '/' by {
            if i < p.len() - 1 {
                assert(p.drop_last()[i] == p[i]);
            }
        }
    }
}

/// Finds where the segment ending at `end` starts.
fn find_segment_start(c: &Vec<char>, end: usize) -> (start: usize)
    requires
        end <= c@.len(),
    ensures
        start as int == segment_start(c@.subrange(0, end as int)),
{
    let mut start = end;
    while start > 0 && c[start - 1] != '/'
        invariant
            start <= end <= c@.len(),
            segment_start(c@.subrange(0, end as int)) == segment_start(
                c@.subrange(0, start as int),
            ),
        decreases start,
    {
        assert(c@.subrange(0, start as int).drop_last() =~= c@.subrange(0, start - 1));
        start = start - 1;
    }
    start
}

/// The file name of `path` (`Path::file_name`), as character positions
/// `(start, end)` into `path`.
pub fn file_name_span(path: &str) -> (r: Option<(usize, usize)>)
    ensures
        match r {
            Some((s, e)) => s <= e <= path@.len() && file_name_of(path@) == Some(
                path@.subrange(s as int, e as int),
            ),
            None => file_name_of(path@) is None,
        },
{
    let c = chars_of(path);
    let mut end = c.len();
    assert(c@.subrange(0, end as int) =~= c@);
    loop
        invariant
            end <= c@.len(),
            c@ == path@,
            file_name_of(path@) == file_name_of(c@.subrange(0, end as int)),
        decreases end,
    {
        let ghost q = c@.subrange(0, end as int);
        if end == 0 {
            return None;
        }
        let start = find_segment_start(&c, end);
        proof {
            lemma_segment_start_bounds(q);
            assert(q.drop_last() =~= c@.subrange(0, end - 1));
            assert(q.subrange(start as int, end as int) =~= c@.subrange(start as int, end as int));
        }
        let len = end - start;
        if len == 0 || (len == 1 && c[start] == '.') {
            proof {
                if len == 1 {
                    assert(q.subrange(start as int, end as int) =~= seq!['.']);
                }
            }
            end = end - 1;
        } else if len == 2 && c[start] == '.' && c[start + 1] == '.' {
            proof {
                assert(q.subrange(start as int, end as int) =~= seq!['.', '.']);
            }
            return None;
        } else {
            proof {
                if len == 1 {
                    assert(q.subrange(start as int, end as int)[0] == c@[start as int]);
                    assert(q.subrange(start as int, end as int) != seq!['.']);
                }
                if len == 2 {
                    assert(q.subrange(start as int, end as int)[1] == c@[start + 1]);
                    assert(q.subrange(start as int, end as int) != seq!['.', '.']);
                }
            }
            return Some((start, end));
        }
    }
}

/// The file name of `path` as a slice of it.
pub fn file_name(path: &str) -> (r: Option<&str>)
    ensures
        match r {
            Some(n) => file_name_of(path@) == Some(n@),
            None => file_name_of(path@) is None,
        },
{
    match file_name_span(path) {
        Some((s, e)) => Some(path.substring_char(s, e)),
        None => None,
    }
}

} // verus!
