//! Relative archive paths and the safety check that extraction applies to
//! every stored member name.
//!
//! Paths are byte strings with `/` as the canonical separator, relative to a
//! root. A path is safe when it cannot escape that root: it is nonempty, not
//! absolute, uses no `\`, has no empty segment, and no segment is `.` or
//! `..`.

use vstd::prelude::*;

verus! {

/// The canonical path separator.
pub const SLASH: u8 = 47;

/// The byte `.`, the first byte of the two traversal segments.
pub const DOT: u8 = 46;

/// The byte `\`, rejected so a stored name cannot smuggle a second separator
/// convention past the check.
pub const BACKSLASH: u8 = 92;

/// A `..` segment starts at `i`: preceded by a separator or the start, and
/// followed by a separator or the end.
pub open spec fn dotdot_segment_at(p: Seq<u8>, i: int) -> bool {
    &&& 0 <= i
    &&& i + 2 <= p.len()
    &&& p[i] == DOT
    &&& p[i + 1] == DOT
    &&& (i == 0 || p[i - 1] == SLASH)
    &&& (i + 2 == p.len() || p[i + 2] == SLASH)
}

/// A `.` segment starts at `i`.
pub open spec fn dot_segment_at(p: Seq<u8>, i: int) -> bool {
    &&& 0 <= i
    &&& i + 1 <= p.len()
    &&& p[i] == DOT
    &&& (i == 0 || p[i - 1] == SLASH)
    &&& (i + 1 == p.len() || p[i + 1] == SLASH)
}

/// An empty segment starts at `i`: two adjacent separators.
pub open spec fn empty_segment_at(p: Seq<u8>, i: int) -> bool {
    &&& 0 <= i
    &&& i + 2 <= p.len()
    &&& p[i] == SLASH
    &&& p[i + 1] == SLASH
}

/// A relative path that cannot escape the root it is resolved against.
pub open spec fn is_safe_path(p: Seq<u8>) -> bool {
    &&& p.len() > 0
    &&& p[0] != SLASH
    &&& p[p.len() - 1] != SLASH
    &&& forall|i: int| 0 <= i < p.len() ==> p[i] != BACKSLASH
    &&& forall|i: int| !dotdot_segment_at(p, i)
    &&& forall|i: int| !dot_segment_at(p, i)
    &&& forall|i: int| !empty_segment_at(p, i)
}

/// One path component, as the walker receives it from the shell: nonempty,
/// free of both separators, and not a traversal segment.
pub open spec fn is_valid_segment(s: Seq<u8>) -> bool {
    &&& s.len() > 0
    &&& forall|i: int| 0 <= i < s.len() ==> s[i] != SLASH && s[i] != BACKSLASH
    &&& !(s.len() == 1 && s[0] == DOT)
    &&& !(s.len() == 2 && s[0] == DOT && s[1] == DOT)
}

/// Decide [`is_safe_path`] on a concrete path.
pub fn check_safe_path(p: &Vec<u8>) -> (r: bool)
    ensures
        r == is_safe_path(p@),
{
    let n = p.len();
    if n == 0 {
        return false;
    }
    if p[0] == SLASH {
        return false;
    }
    if p[n - 1] == SLASH {
        return false;
    }
    let mut i: usize = 0;
    while i < n
        invariant
            n == p@.len(),
            0 <= i <= n,
            n > 0,
            p@[0] != SLASH,
            p@[n - 1] != SLASH,
            forall|j: int| 0 <= j < i ==> p@[j] != BACKSLASH,
            forall|j: int| j < i ==> !dotdot_segment_at(p@, j),
            forall|j: int| j < i ==> !dot_segment_at(p@, j),
            forall|j: int| j < i ==> !empty_segment_at(p@, j),
        decreases n - i,
    {
        let b = p[i];
        if b == BACKSLASH {
            return false;
        }
        if b == SLASH && i + 1 < n && p[i + 1] == SLASH {
            assert(empty_segment_at(p@, i as int));
            return false;
        }
        if b == DOT && (i == 0 || p[i - 1] == SLASH) {
            if i + 1 == n || p[i + 1] == SLASH {
                assert(dot_segment_at(p@, i as int));
                return false;
            }
            if p[i + 1] == DOT && (i + 2 == n || p[i + 2] == SLASH) {
                assert(dotdot_segment_at(p@, i as int));
                return false;
            }
        }
        i = i + 1;
    }
    true
}

} // verus!
