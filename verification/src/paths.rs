//! Unix path decomposition over strings, as `std::path::Path` performs it:
//! the final component, its extension and stem, and the parent's final component.

use vstd::prelude::*;

use crate::text::{chars_of, lemma_find_from_bounds, matches_at, opt_int, rfind_before, rfind_before_vec, single, subvec};

verus! {

/// One past the end of the final component before `j`: trailing separators and
/// `.` components are not components.
pub open spec fn name_end(s: Seq<char>, j: int) -> int
    decreases j,
{
    if 0 < j <= s.len() && s[j - 1] == '/' {
        name_end(s, j - 1)
    } else if 0 < j <= s.len() && s[j - 1] == '.' && (j == 1 || s[j - 2] == '/') {
        name_end(s, j - 1)
    } else {
        j
    }
}

/// Start of the component that ends at `e`.
pub open spec fn seg_start(s: Seq<char>, e: int) -> int {
    match rfind_before(s, seq!['/'], e) {
        Some(k) => k + 1,
        None => 0,
    }
}

pub open spec fn is_dotdot(n: Seq<char>) -> bool {
    n.len() == 2 && n[0] == '.' && n[1] == '.'
}

/// `Path::file_name`: the final component, unless the path ends in `..` or has none.
pub open spec fn file_name(s: Seq<char>) -> Option<Seq<char>> {
    let e = name_end(s, s.len() as int);
    let st = seg_start(s, e);
    if e <= 0 || is_dotdot(s.subrange(st, e)) {
        None
    } else {
        Some(s.subrange(st, e))
    }
}

/// The extension of a file name (`Path::extension` on that name).
pub open spec fn name_extension(n: Seq<char>) -> Option<Seq<char>> {
    match rfind_before(n, seq!['.'], n.len() as int) {
        None => None,
        Some(k) => if k == 0 { None } else { Some(n.subrange(k + 1, n.len() as int)) },
    }
}

/// The stem of a file name (`Path::file_stem` on that name).
pub open spec fn name_stem(n: Seq<char>) -> Seq<char> {
    match rfind_before(n, seq!['.'], n.len() as int) {
        None => n,
        Some(k) => if k == 0 { n } else { n.subrange(0, k) },
    }
}

/// `Path::extension`.
pub open spec fn extension(s: Seq<char>) -> Option<Seq<char>> {
    match file_name(s) {
        None => None,
        Some(n) => name_extension(n),
    }
}

/// `Path::file_stem`.
pub open spec fn file_stem(s: Seq<char>) -> Option<Seq<char>> {
    match file_name(s) {
        None => None,
        Some(n) => Some(name_stem(n)),
    }
}

/// `path.with_extension("")`: the path cut after the stem of its file name.
pub open spec fn without_extension(s: Seq<char>) -> Seq<char> {
    match file_name(s) {
        None => s,
        Some(n) => s.subrange(0, seg_start(s, name_end(s, s.len() as int)) + name_stem(n).len()),
    }
}

/// `path.parent().and_then(|p| p.file_name())`.
pub open spec fn parent_file_name(s: Seq<char>) -> Option<Seq<char>> {
    let e = name_end(s, s.len() as int);
    if e <= 0 {
        None
    } else {
        file_name(s.subrange(0, seg_start(s, e)))
    }
}

pub proof fn lemma_name_end_bounds(s: Seq<char>, j: int)
    requires
        0 <= j <= s.len(),
    ensures
        0 <= name_end(s, j) <= j,
    decreases j,
{
    if 0 < j && (s[j - 1] == '/' || (s[j - 1] == '.' && (j == 1 || s[j - 2] == '/'))) {
        lemma_name_end_bounds(s, j - 1);
    }
}

pub proof fn lemma_rfind_before_bounds(s: Seq<char>, p: Seq<char>, j: int)
    requires
        0 <= j <= s.len(),
    ensures
        rfind_before(s, p, j) matches Some(k) ==> 0 <= k && k + p.len() <= j && matches_at(s, p, k),
    decreases j + 1,
{
    if j < p.len() || j > s.len() {
    } else if matches_at(s, p, j - p.len()) {
    } else if j > 0 {
        lemma_rfind_before_bounds(s, p, j - 1);
    } else {
        assert(rfind_before(s, p, -1) is None);
    }
}

pub proof fn lemma_seg_start_bounds(s: Seq<char>, e: int)
    requires
        0 <= e <= s.len(),
    ensures
        0 <= seg_start(s, e) <= e,
{
    lemma_rfind_before_bounds(s, seq!['/'], e);
}

fn name_end_exec(s: &Vec<char>) -> (r: usize)
    ensures
        r as int == name_end(s@, s@.len() as int),
        r <= s.len(),
{
    let mut j: usize = s.len();
    loop
        invariant
            j <= s.len(),
            name_end(s@, s@.len() as int) == name_end(s@, j as int),
        decreases j,
    {
        if j > 0 && s[j - 1] == '/' {
            j = j - 1;
        } else if j > 0 && s[j - 1] == '.' && (j == 1 || s[j - 2] == '/') {
            j = j - 1;
        } else {
            return j;
        }
    }
}

fn seg_start_exec(s: &Vec<char>, e: usize) -> (r: usize)
    requires
        e <= s.len(),
    ensures
        r as int == seg_start(s@, e as int),
        r <= e,
{
    let slash = single('/');
    proof { lemma_seg_start_bounds(s@, e as int); }
    match rfind_before_vec(s, &slash, e) {
        Some(k) => k + 1,
        None => 0,
    }
}

/// Start and end of the file name, when there is one.
fn file_name_bounds(s: &Vec<char>) -> (r: Option<(usize, usize)>)
    ensures
        match r {
            Some((a, b)) => a <= b <= s.len() && file_name(s@) == Some(s@.subrange(a as int, b as int))
                && b as int == name_end(s@, s@.len() as int) && a as int == seg_start(s@, b as int),
            None => file_name(s@) is None,
        },
{
    let e = name_end_exec(s);
    let st = seg_start_exec(s, e);
    if e == 0 {
        return None;
    }
    if e - st == 2 && s[st] == '.' && s[st + 1] == '.' {
        return None;
    }
    proof {
        let seg = s@.subrange(st as int, e as int);
        if is_dotdot(seg) {
            assert(seg[0] == s@[st as int]);
        }
    }
    Some((st, e))
}

pub fn file_name_vec(s: &Vec<char>) -> (r: Option<Vec<char>>)
    ensures
        match r {
            Some(v) => file_name(s@) == Some(v@),
            None => file_name(s@) is None,
        },
{
    match file_name_bounds(s) {
        Some((a, b)) => Some(subvec(s, a, b)),
        None => None,
    }
}

fn last_dot(n: &Vec<char>) -> (r: Option<usize>)
    ensures
        opt_int(r) == rfind_before(n@, seq!['.'], n@.len() as int),
        r matches Some(k) ==> k < n.len(),
{
    let dot = single('.');
    proof { lemma_rfind_before_bounds(n@, seq!['.'], n@.len() as int); }
    rfind_before_vec(n, &dot, n.len())
}

pub fn extension_vec(s: &Vec<char>) -> (r: Option<Vec<char>>)
    ensures
        match r {
            Some(v) => extension(s@) == Some(v@),
            None => extension(s@) is None,
        },
{
    match file_name_vec(s) {
        None => None,
        Some(n) => match last_dot(&n) {
            None => None,
            Some(k) => if k == 0 { None } else { Some(subvec(&n, k + 1, n.len())) },
        },
    }
}

pub fn name_stem_vec(n: &Vec<char>) -> (r: Vec<char>)
    ensures
        r@ == name_stem(n@),
{
    match last_dot(n) {
        None => subvec(n, 0, n.len()),
        Some(k) => if k == 0 { subvec(n, 0, n.len()) } else { subvec(n, 0, k) },
    }
}

pub fn file_stem_vec(s: &Vec<char>) -> (r: Option<Vec<char>>)
    ensures
        match r {
            Some(v) => file_stem(s@) == Some(v@),
            None => file_stem(s@) is None,
        },
{
    match file_name_vec(s) {
        None => None,
        Some(n) => {
            let st = name_stem_vec(&n);
            assert(n@.subrange(0, n@.len() as int) =~= n@);
            Some(st)
        },
    }
}

pub fn without_extension_vec(s: &Vec<char>) -> (r: Vec<char>)
    ensures
        r@ == without_extension(s@),
{
    match file_name_bounds(s) {
        None => {
            let r = subvec(s, 0, s.len());
            assert(s@.subrange(0, s@.len() as int) =~= s@);
            r
        },
        Some((a, b)) => {
            let n = subvec(s, a, b);
            let st = name_stem_vec(&n);
            proof {
                assert(n@.subrange(0, n@.len() as int) =~= n@);
            }
            assert(st@.len() <= n@.len()) by {
                proof_name_stem_len(n@);
            }
            let cut = a + st.len();
            subvec(s, 0, cut)
        },
    }
}

proof fn proof_name_stem_len(n: Seq<char>)
    ensures
        name_stem(n).len() <= n.len(),
{
    lemma_rfind_before_bounds(n, seq!['.'], n.len() as int);
}

pub fn parent_file_name_vec(s: &Vec<char>) -> (r: Option<Vec<char>>)
    ensures
        match r {
            Some(v) => parent_file_name(s@) == Some(v@),
            None => parent_file_name(s@) is None,
        },
{
    let e = name_end_exec(s);
    if e == 0 {
        return None;
    }
    let st = seg_start_exec(s, e);
    let prefix = subvec(s, 0, st);
    file_name_vec(&prefix)
}

/// The final component of a path given as a string slice.
pub fn file_name_of(path: &str) -> (r: Option<Vec<char>>)
    ensures
        match r {
            Some(v) => file_name(path@) == Some(v@),
            None => file_name(path@) is None,
        },
{
    let v = chars_of(path);
    file_name_vec(&v)
}

} // verus!
