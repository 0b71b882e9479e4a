//! Unix path text: joining (`Path::join`) and a path's extension
//! (`Path::extension`), on the character views of paths.
use vstd::prelude::*;
use crate::text::{after_last, chars_eq_str, find_after_last, last_index, sub_chars};

verus! {

/// `base.join(p)` on Unix: an absolute `p` replaces `base`; otherwise a `/`
/// is put between them unless `base` is empty or already ends with one.
pub open spec fn path_join(base: Seq<char>, p: Seq<char>) -> Seq<char> {
    if p.len() > 0 && p[0] == '/' {
        p
    } else if base.len() > 0 && base.last() != '/' {
        base + seq!['/'] + p
    } else {
        base + p
    }
}

/// `p` without trailing separators and trailing `.` components, which do not
/// count as the last component of a path.
pub open spec fn trimmed_path(p: Seq<char>) -> Seq<char>
    decreases p.len(),
{
    if p.len() == 0 {
        p
    } else if p.last() == '/' {
        trimmed_path(p.drop_last())
    } else if p.last() == '.' && (p.len() == 1 || p[p.len() - 2] == '/') {
        trimmed_path(p.drop_last())
    } else {
        p
    }
}

/// `Path::file_name`: the last component, unless it is `..` or absent.
pub open spec fn path_file_name(p: Seq<char>) -> Option<Seq<char>> {
    let piece = after_last(trimmed_path(p), '/');
    if piece.len() == 0 || piece == ".."@ {
        None
    } else {
        Some(piece)
    }
}

/// The extension of a file name: the text after its last `.`, provided that
/// `.` is not the name's first character.
pub open spec fn name_extension(n: Seq<char>) -> Option<Seq<char>> {
    let i = last_index(n, '.');
    if i <= 0 {
        None
    } else {
        Some(n.skip(i + 1))
    }
}

/// `Path::extension`.
pub open spec fn path_extension(p: Seq<char>) -> Option<Seq<char>> {
    match path_file_name(p) {
        Some(n) => name_extension(n),
        None => None,
    }
}

/// Joins two paths as `Path::join` does on Unix.
pub fn join_path(base: &[char], p: &[char]) -> (r: Vec<char>)
    ensures
        r@ == path_join(base@, p@),
{
    if p.len() > 0 && p[0] == '/' {
        return sub_chars(p, 0, p.len());
    }
    let mut r = sub_chars(base, 0, base.len());
    assert(base@.subrange(0, base@.len() as int) =~= base@);
    if base.len() > 0 && base[base.len() - 1] != '/' {
        r.push('/');
    }
    let ghost mid = r@;
    let mut i: usize = 0;
    while i < p.len()
        invariant
            0 <= i <= p@.len(),
            r@ == mid + p@.take(i as int),
        decreases p@.len() - i,
    {
        r.push(p[i]);
        i = i + 1;
        assert(r@ =~= mid + p@.take(i as int));
    }
    assert(p@.take(p@.len() as int) =~= p@);
    assert(r@ =~= path_join(base@, p@));
    r
}

/// The extension of a path, if it has one.
pub fn extension_of_path(p: &[char]) -> (r: Option<Vec<char>>)
    ensures
        match r {
            Some(e) => path_extension(p@) == Some(e@),
            None => path_extension(p@) is None,
        },
{
    let mut k: usize = p.len();
    assert(p@.take(k as int) =~= p@);
    while k > 0 && (p[k - 1] == '/' || (p[k - 1] == '.' && (k == 1 || p[k - 2] == '/')))
        invariant
            0 <= k <= p@.len(),
            trimmed_path(p@.take(k as int)) == trimmed_path(p@),
        decreases k,
    {
        assert(p@.take(k as int).drop_last() =~= p@.take(k - 1));
        k = k - 1;
    }
    let t = sub_chars(p, 0, k);
    assert(t@ =~= p@.take(k as int));
    assert(trimmed_path(t@) == t@);
    let start = find_after_last(t.as_slice(), '/');
    let piece = sub_chars(t.as_slice(), start, t.len());
    assert(piece@ =~= after_last(t@, '/'));
    if piece.len() == 0 || chars_eq_str(piece.as_slice(), "..") {
        return None;
    }
    let dot = find_after_last(piece.as_slice(), '.');
    if dot <= 1 {
        return None;
    }
    Some(sub_chars(piece.as_slice(), dot, piece.len()))
}

} // verus!
