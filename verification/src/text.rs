//! Character-sequence primitives shared by the scanners and renderers.
//!
//! Text is modelled as `Seq<char>`; every executable helper here is tied to a
//! spec function that states what it computes.

use vstd::prelude::*;
use vstd::std_specs::iter::IteratorSpec;

verus! {

// ---------------------------------------------------------------------------
// Conversions between std strings and character vectors
// ---------------------------------------------------------------------------

/// The characters of `s`, in order.
pub(crate) fn chars_of(s: &str) -> (v: Vec<char>)
    ensures
        v@ == s@,
{
    broadcast use vstd::string::axiom_spec_iter, vstd::string::next_postcondition;
    let mut it = s.chars();
    let mut v: Vec<char> = Vec::new();
    loop
        invariant
            v@.len() <= s@.len(),
            v@ == s@.take(v@.len() as int),
            IteratorSpec::remaining(&it) == s@.skip(v@.len() as int),
        ensures
            v@ == s@,
        decreases s@.len() - v@.len(),
    {
        match it.next() {
            Some(c) => {
                assert(s@.take(v@.len() + 1 as int) =~= v@.push(c));
                v.push(c);
                assert(IteratorSpec::remaining(&it) =~= s@.skip(v@.len() as int));
            },
            None => {
                assert(v@ =~= s@);
                break;
            },
        }
    }
    v
}

/// The string made of the characters of `v`, in order (`String: FromIterator<char>`).
#[verifier::external_body]
pub(crate) fn string_of(v: &[char]) -> (s: String)
    ensures
        s@ == v@,
{
    v.iter().collect()
}

/// `std::str::from_utf8`: succeeds exactly on valid UTF-8 and then yields the decoded characters.
#[verifier::external_body]
pub(crate) fn utf8_str(bytes: &[u8]) -> (r: Option<&str>)
    ensures
        match r {
            Some(s) => vstd::utf8::valid_utf8(bytes@) && s@ == vstd::utf8::decode_utf8(bytes@),
            None => !vstd::utf8::valid_utf8(bytes@),
        },
{
    std::str::from_utf8(bytes).ok()
}

/// `std::str::from_utf8`, with the error's message (`Utf8Error` as displayed) on failure.
/// What the message says is not stated.
#[verifier::external_body]
pub(crate) fn utf8_str_or_message(bytes: &[u8]) -> (r: Result<&str, String>)
    ensures
        match r {
            Ok(s) => vstd::utf8::valid_utf8(bytes@) && s@ == vstd::utf8::decode_utf8(bytes@),
            Err(_) => !vstd::utf8::valid_utf8(bytes@),
        },
{
    std::str::from_utf8(bytes).map_err(|e| e.to_string())
}

/// The text of `bytes` when they are valid UTF-8, and the empty text otherwise
/// (`from_utf8(bytes).unwrap_or("")`).
pub open spec fn utf8_or_empty(bytes: Seq<u8>) -> Seq<char> {
    if vstd::utf8::valid_utf8(bytes) {
        vstd::utf8::decode_utf8(bytes)
    } else {
        Seq::empty()
    }
}

pub fn utf8_or_empty_vec(bytes: &[u8]) -> (r: Vec<char>)
    ensures
        r@ == utf8_or_empty(bytes@),
{
    match utf8_str(bytes) {
        Some(s) => chars_of(s),
        None => Vec::new(),
    }
}

/// Number of bytes of the UTF-8 encoding of `c` (`char::len_utf8`).
pub open spec fn utf8_len(c: char) -> int {
    if (c as u32) < 0x80 {
        1
    } else if (c as u32) < 0x800 {
        2
    } else if (c as u32) < 0x10000 {
        3
    } else {
        4
    }
}

pub fn utf8_len_exec(c: char) -> (r: usize)
    ensures
        r as int == utf8_len(c),
{
    let u: u32 = c as u32;
    if u < 0x80 {
        1
    } else if u < 0x800 {
        2
    } else if u < 0x10000 {
        3
    } else {
        4
    }
}

/// Total UTF-8 byte length of a character sequence.
pub open spec fn utf8_bytes(s: Seq<char>) -> int
    decreases s.len(),
{
    if s.len() == 0 {
        0
    } else {
        utf8_bytes(s.drop_last()) + utf8_len(s.last())
    }
}

// ---------------------------------------------------------------------------
// Whitespace and trimming
// ---------------------------------------------------------------------------

/// The Unicode `White_Space` property, which `char::is_whitespace` and `str::trim` use.
pub open spec fn is_ws(c: char) -> bool {
    ||| c == '\t' || c == '\n' || c == '\u{B}' || c == '\u{C}' || c == '\r' || c == ' '
    ||| c == '\u{85}' || c == '\u{A0}' || c == '\u{1680}'
    ||| ('\u{2000}' <= c && c <= '\u{200A}')
    ||| c == '\u{2028}' || c == '\u{2029}' || c == '\u{202F}' || c == '\u{205F}' || c == '\u{3000}'
}

pub fn exec_is_ws(c: char) -> (r: bool)
    ensures
        r == is_ws(c),
{
    c == '\t' || c == '\n' || c == '\u{B}' || c == '\u{C}' || c == '\r' || c == ' '
        || c == '\u{85}' || c == '\u{A0}' || c == '\u{1680}' || ('\u{2000}' <= c && c
        <= '\u{200A}') || c == '\u{2028}' || c == '\u{2029}' || c == '\u{202F}' || c
        == '\u{205F}' || c == '\u{3000}'
}

/// Index of the first non-whitespace character at or after `i` (or the length).
pub open spec fn first_non_ws(s: Seq<char>, i: int) -> int
    decreases s.len() - i,
{
    if 0 <= i < s.len() && is_ws(s[i]) {
        first_non_ws(s, i + 1)
    } else {
        i
    }
}

/// One past the last non-whitespace character before `j` (or 0).
pub open spec fn last_non_ws(s: Seq<char>, j: int) -> int
    decreases j,
{
    if 0 < j <= s.len() && is_ws(s[j - 1]) {
        last_non_ws(s, j - 1)
    } else {
        j
    }
}

/// `str::trim_start`.
pub open spec fn trim_start(s: Seq<char>) -> Seq<char> {
    s.subrange(first_non_ws(s, 0), s.len() as int)
}

/// `str::trim_end`.
pub open spec fn trim_end(s: Seq<char>) -> Seq<char> {
    s.subrange(0, last_non_ws(s, s.len() as int))
}

/// `str::trim`.
pub open spec fn trim(s: Seq<char>) -> Seq<char> {
    trim_start(trim_end(s))
}

pub proof fn lemma_first_non_ws_bounds(s: Seq<char>, i: int)
    requires
        0 <= i <= s.len(),
    ensures
        i <= first_non_ws(s, i) <= s.len(),
        first_non_ws(s, i) < s.len() ==> !is_ws(s[first_non_ws(s, i)]),
    decreases s.len() - i,
{
    if i < s.len() && is_ws(s[i]) {
        lemma_first_non_ws_bounds(s, i + 1);
    }
}

pub proof fn lemma_last_non_ws_bounds(s: Seq<char>, j: int)
    requires
        0 <= j <= s.len(),
    ensures
        0 <= last_non_ws(s, j) <= j,
        last_non_ws(s, j) > 0 ==> !is_ws(s[last_non_ws(s, j) - 1]),
    decreases j,
{
    if 0 < j && is_ws(s[j - 1]) {
        lemma_last_non_ws_bounds(s, j - 1);
    }
}

pub fn subvec(s: &Vec<char>, i: usize, j: usize) -> (r: Vec<char>)
    requires
        i <= j <= s.len(),
    ensures
        r@ == s@.subrange(i as int, j as int),
{
    let mut r: Vec<char> = Vec::new();
    let mut k: usize = i;
    while k < j
        invariant
            i <= k <= j <= s.len(),
            r@ == s@.subrange(i as int, k as int),
        decreases j - k,
    {
        r.push(s[k]);
        k = k + 1;
        assert(r@ =~= s@.subrange(i as int, k as int));
    }
    r
}

pub fn trim_start_vec(s: &Vec<char>) -> (r: Vec<char>)
    ensures
        r@ == trim_start(s@),
{
    let mut i: usize = 0;
    while i < s.len() && exec_is_ws(s[i])
        invariant
            i <= s.len(),
            first_non_ws(s@, 0) == first_non_ws(s@, i as int),
        decreases s.len() - i,
    {
        i = i + 1;
    }
    subvec(s, i, s.len())
}

pub fn trim_end_vec(s: &Vec<char>) -> (r: Vec<char>)
    ensures
        r@ == trim_end(s@),
{
    let mut j: usize = s.len();
    while j > 0 && exec_is_ws(s[j - 1])
        invariant
            j <= s.len(),
            last_non_ws(s@, s@.len() as int) == last_non_ws(s@, j as int),
        decreases j,
    {
        j = j - 1;
    }
    subvec(s, 0, j)
}

pub fn trim_vec(s: &Vec<char>) -> (r: Vec<char>)
    ensures
        r@ == trim(s@),
{
    let e = trim_end_vec(s);
    trim_start_vec(&e)
}

// ---------------------------------------------------------------------------
// Prefixes, suffixes and search
// ---------------------------------------------------------------------------

/// `str::starts_with` with a string pattern.
pub open spec fn starts_with(s: Seq<char>, p: Seq<char>) -> bool {
    p.len() <= s.len() && s.subrange(0, p.len() as int) == p
}

/// `str::ends_with` with a string pattern.
pub open spec fn ends_with(s: Seq<char>, p: Seq<char>) -> bool {
    p.len() <= s.len() && s.subrange(s.len() - p.len(), s.len() as int) == p
}

/// `p` occurs in `s` starting at index `i`.
pub open spec fn matches_at(s: Seq<char>, p: Seq<char>, i: int) -> bool {
    0 <= i && i + p.len() <= s.len() && s.subrange(i, i + p.len()) == p
}

/// The first occurrence of `p` in `s` at or after index `i` (`str::find` when `i` is 0).
pub open spec fn find_from(s: Seq<char>, p: Seq<char>, i: int) -> Option<int>
    decreases s.len() + 1 - i,
{
    if i < 0 || i + p.len() > s.len() {
        None
    } else if matches_at(s, p, i) {
        Some(i)
    } else {
        find_from(s, p, i + 1)
    }
}

/// `str::find` with a string pattern.
pub open spec fn find(s: Seq<char>, p: Seq<char>) -> Option<int> {
    find_from(s, p, 0)
}

/// `str::contains` with a string pattern.
pub open spec fn contains(s: Seq<char>, p: Seq<char>) -> bool {
    find(s, p) is Some
}

/// The last occurrence of `p` in `s` that ends at or before index `j` (`str::rfind` when `j` is the length).
pub open spec fn rfind_before(s: Seq<char>, p: Seq<char>, j: int) -> Option<int>
    decreases j + 1,
{
    if j < p.len() || j > s.len() {
        None
    } else if matches_at(s, p, j - p.len()) {
        Some(j - p.len())
    } else {
        rfind_before(s, p, j - 1)
    }
}

/// `str::rfind` with a string pattern.
pub open spec fn rfind(s: Seq<char>, p: Seq<char>) -> Option<int> {
    rfind_before(s, p, s.len() as int)
}

pub proof fn lemma_find_from_bounds(s: Seq<char>, p: Seq<char>, i: int)
    requires
        0 <= i,
    ensures
        find_from(s, p, i) matches Some(k) ==> i <= k && matches_at(s, p, k),
        find_from(s, p, i) is None ==> forall|k: int| i <= k ==> !#[trigger] matches_at(s, p, k),
    decreases s.len() + 1 - i,
{
    if i < 0 || i + p.len() > s.len() {
        assert forall|k: int| i <= k implies !#[trigger] matches_at(s, p, k) by {}
    } else if matches_at(s, p, i) {
    } else {
        lemma_find_from_bounds(s, p, i + 1);
    }
}

pub proof fn lemma_rfind_before_bounds(s: Seq<char>, p: Seq<char>, j: int)
    ensures
        rfind_before(s, p, j) matches Some(k) ==> 0 <= k && k + p.len() <= j && matches_at(s, p, k),
    decreases j + 1,
{
    if j < p.len() || j > s.len() {
    } else if matches_at(s, p, j - p.len()) {
    } else {
        lemma_rfind_before_bounds(s, p, j - 1);
    }
}

/// An optional machine index read as a mathematical one.
pub open spec fn opt_int(r: Option<usize>) -> Option<int> {
    match r {
        Some(k) => Some(k as int),
        None => None,
    }
}

pub fn single(c: char) -> (r: Vec<char>)
    ensures
        r@ == seq![c],
{
    let mut r: Vec<char> = Vec::new();
    r.push(c);
    assert(r@ =~= seq![c]);
    r
}

pub fn matches_at_vec(s: &Vec<char>, p: &Vec<char>, i: usize) -> (r: bool)
    ensures
        r == matches_at(s@, p@, i as int),
{
    if i > s.len() || p.len() > s.len() - i {
        return false;
    }
    let mut k: usize = 0;
    while k < p.len()
        invariant
            k <= p.len(),
            i + p.len() <= s.len(),
            forall|m: int| 0 <= m < k ==> s@[i + m] == p@[m],
        decreases p.len() - k,
    {
        if s[i + k] != p[k] {
            assert(s@.subrange(i as int, i + p.len())[k as int] != p@[k as int]);
            return false;
        }
        k = k + 1;
    }
    assert(s@.subrange(i as int, i + p.len()) =~= p@);
    true
}

pub fn find_from_vec(s: &Vec<char>, p: &Vec<char>, from: usize) -> (r: Option<usize>)
    ensures
        opt_int(r) == find_from(s@, p@, from as int),
{
    if p.len() > s.len() {
        return None;
    }
    let last: usize = s.len() - p.len();
    let mut i: usize = from;
    while i < last
        invariant
            p.len() <= s.len(),
            last == s.len() - p.len(),
            from <= i,
            find_from(s@, p@, from as int) == find_from(s@, p@, i as int),
        decreases last - i,
    {
        if matches_at_vec(s, p, i) {
            return Some(i);
        }
        i = i + 1;
    }
    if i == last && matches_at_vec(s, p, i) {
        return Some(i);
    }
    assert(find_from(s@, p@, i + 1) is None);
    None
}

pub fn find_vec(s: &Vec<char>, p: &Vec<char>) -> (r: Option<usize>)
    ensures
        opt_int(r) == find(s@, p@),
{
    find_from_vec(s, p, 0)
}

pub fn contains_vec(s: &Vec<char>, p: &Vec<char>) -> (r: bool)
    ensures
        r == contains(s@, p@),
{
    find_vec(s, p).is_some()
}

pub fn rfind_before_vec(s: &Vec<char>, p: &Vec<char>, before: usize) -> (r: Option<usize>)
    requires
        before <= s.len(),
    ensures
        opt_int(r) == rfind_before(s@, p@, before as int),
{
    let mut j: usize = before;
    while j >= p.len()
        invariant
            j <= s.len(),
            rfind_before(s@, p@, before as int) == rfind_before(s@, p@, j as int),
        decreases j,
    {
        if matches_at_vec(s, p, j - p.len()) {
            return Some(j - p.len());
        }
        if j == 0 {
            assert(rfind_before(s@, p@, -1) is None);
            return None;
        }
        j = j - 1;
    }
    None
}

pub fn rfind_vec(s: &Vec<char>, p: &Vec<char>) -> (r: Option<usize>)
    ensures
        opt_int(r) == rfind(s@, p@),
{
    rfind_before_vec(s, p, s.len())
}

pub fn starts_with_vec(s: &Vec<char>, p: &Vec<char>) -> (r: bool)
    ensures
        r == starts_with(s@, p@),
{
    matches_at_vec(s, p, 0)
}

pub fn ends_with_vec(s: &Vec<char>, p: &Vec<char>) -> (r: bool)
    ensures
        r == ends_with(s@, p@),
{
    if p.len() > s.len() {
        return false;
    }
    matches_at_vec(s, p, s.len() - p.len())
}

pub fn eq_vec(a: &Vec<char>, b: &Vec<char>) -> (r: bool)
    ensures
        r == (a@ == b@),
{
    if a.len() != b.len() {
        return false;
    }
    let r = matches_at_vec(a, b, 0);
    assert(a@.subrange(0, a@.len() as int) =~= a@);
    r
}

// ---------------------------------------------------------------------------
// Lines
// ---------------------------------------------------------------------------

/// A line without the carriage return of a `\r\n` ending.
pub open spec fn strip_cr(line: Seq<char>) -> Seq<char> {
    if line.len() > 0 && line.last() == '\r' {
        line.drop_last()
    } else {
        line
    }
}

/// `str::lines` applied to the text of `s` from index `i` on.
pub open spec fn lines_from(s: Seq<char>, i: int) -> Seq<Seq<char>>
    decreases s.len() - i,
{
    if i < 0 || i >= s.len() {
        Seq::empty()
    } else {
        match find_from(s, seq!['\n'], i) {
            None => seq![s.subrange(i, s.len() as int)],
            Some(j) => {
                proof {
                    lemma_find_from_bounds(s, seq!['\n'], i);
                }
                seq![strip_cr(s.subrange(i, j))] + lines_from(s, j + 1)
            },
        }
    }
}

/// `str::lines`: split at `\n`, drop the `\r` of a `\r\n`, no final empty line.
pub open spec fn lines(s: Seq<char>) -> Seq<Seq<char>> {
    lines_from(s, 0)
}

/// The character sequences held by a vector of character vectors.
pub open spec fn views(v: Seq<Vec<char>>) -> Seq<Seq<char>> {
    Seq::new(v.len(), |i: int| v[i]@)
}

pub proof fn lemma_views_push(v: Seq<Vec<char>>, x: Vec<char>)
    ensures
        views(v.push(x)) == views(v).push(x@),
{
    assert(views(v.push(x)) =~= views(v).push(x@));
}

pub fn lines_vec(s: &Vec<char>) -> (r: Vec<Vec<char>>)
    ensures
        views(r@) == lines(s@),
{
    let nl = single('\n');
    let mut out: Vec<Vec<char>> = Vec::new();
    let mut i: usize = 0;
    assert(views(out@) + lines_from(s@, 0) =~= lines_from(s@, 0));
    while i < s.len()
        invariant
            nl@ == seq!['\n'],
            i <= s.len(),
            views(out@) + lines_from(s@, i as int) == lines_from(s@, 0),
        decreases s.len() - i,
    {
        let ghost old_out = views(out@);
        match find_from_vec(s, &nl, i) {
            None => {
                let line = subvec(s, i, s.len());
                proof { lemma_views_push(out@, line); }
                out.push(line);
                assert(lines_from(s@, s.len() as int) =~= Seq::<Seq<char>>::empty());
                assert(views(out@) + lines_from(s@, s.len() as int) =~= old_out + lines_from(s@, i as int));
                i = s.len();
            },
            Some(j) => {
                proof { lemma_find_from_bounds(s@, nl@, i as int); }
                let mut line = subvec(s, i, j);
                if line.len() > 0 && line[line.len() - 1] == '\r' {
                    line.pop();
                }
                assert(line@ =~= strip_cr(s@.subrange(i as int, j as int)));
                proof { lemma_views_push(out@, line); }
                out.push(line);
                assert(views(out@) + lines_from(s@, j + 1) =~= old_out + lines_from(s@, i as int));
                i = j + 1;
            },
        }
    }
    assert(lines_from(s@, i as int) =~= Seq::<Seq<char>>::empty());
    assert(views(out@) =~= views(out@) + lines_from(s@, i as int));
    out
}

// ---------------------------------------------------------------------------
// Splitting, replacing and stripping
// ---------------------------------------------------------------------------

/// The text from `i` on with every non-overlapping occurrence of `p` (searched
/// left to right) replaced by `q`; `str::replace` when `i` is 0 and `p` is not empty.
pub open spec fn replace_from(s: Seq<char>, p: Seq<char>, q: Seq<char>, i: int) -> Seq<char>
    decreases s.len() - i,
{
    if i < 0 || i > s.len() || p.len() == 0 {
        s.subrange(if 0 <= i <= s.len() { i } else { s.len() as int }, s.len() as int)
    } else {
        match find_from(s, p, i) {
            None => s.subrange(i, s.len() as int),
            Some(k) => {
                proof {
                    lemma_find_from_bounds(s, p, i);
                }
                s.subrange(i, k) + q + replace_from(s, p, q, k + p.len())
            },
        }
    }
}

/// `str::replace` with a non-empty string pattern.
pub open spec fn replace(s: Seq<char>, p: Seq<char>, q: Seq<char>) -> Seq<char> {
    replace_from(s, p, q, 0)
}

pub fn append_vec(out: &mut Vec<char>, x: &Vec<char>)
    ensures
        final(out)@ == old(out)@ + x@,
{
    let mut k: usize = 0;
    let ghost o = out@;
    while k < x.len()
        invariant
            k <= x.len(),
            out@ == o + x@.subrange(0, k as int),
        decreases x.len() - k,
    {
        out.push(x[k]);
        k = k + 1;
        assert(out@ =~= o + x@.subrange(0, k as int));
    }
    assert(x@.subrange(0, x@.len() as int) =~= x@);
}

pub fn append_str(out: &mut Vec<char>, x: &str)
    ensures
        final(out)@ == old(out)@ + x@,
{
    let v = chars_of(x);
    append_vec(out, &v);
}

pub fn replace_vec(s: &Vec<char>, p: &Vec<char>, q: &Vec<char>) -> (r: Vec<char>)
    requires
        p.len() > 0,
    ensures
        r@ == replace(s@, p@, q@),
{
    let mut out: Vec<char> = Vec::new();
    let mut i: usize = 0;
    loop
        invariant
            p.len() > 0,
            i <= s.len(),
            out@ + replace_from(s@, p@, q@, i as int) == replace(s@, p@, q@),
        decreases s.len() - i,
    {
        match find_from_vec(s, p, i) {
            None => {
                let rest = subvec(s, i, s.len());
                append_vec(&mut out, &rest);
                return out;
            },
            Some(k) => {
                proof { lemma_find_from_bounds(s@, p@, i as int); }
                let ghost o = out@;
                let piece = subvec(s, i, k);
                append_vec(&mut out, &piece);
                append_vec(&mut out, q);
                assert(out@ + replace_from(s@, p@, q@, k + p.len()) =~= o + replace_from(s@, p@, q@, i as int));
                i = k + p.len();
            },
        }
    }
}

/// The last piece of `str::split` with a non-empty pattern, taken from index `i` on.
pub open spec fn split_last_from(s: Seq<char>, p: Seq<char>, i: int) -> Seq<char>
    decreases s.len() - i,
{
    if i < 0 || i > s.len() || p.len() == 0 {
        s
    } else {
        match find_from(s, p, i) {
            None => s.subrange(i, s.len() as int),
            Some(k) => {
                proof {
                    lemma_find_from_bounds(s, p, i);
                }
                split_last_from(s, p, k + p.len())
            },
        }
    }
}

/// `s.split(p).last()` (never `None` for a string).
pub open spec fn split_last(s: Seq<char>, p: Seq<char>) -> Seq<char> {
    split_last_from(s, p, 0)
}

/// `s.split(p).next()` (never `None` for a string).
pub open spec fn split_first(s: Seq<char>, p: Seq<char>) -> Seq<char> {
    match find(s, p) {
        None => s,
        Some(k) => s.subrange(0, k),
    }
}

pub fn split_last_vec(s: &Vec<char>, p: &Vec<char>) -> (r: Vec<char>)
    requires
        p.len() > 0,
    ensures
        r@ == split_last(s@, p@),
{
    let mut i: usize = 0;
    loop
        invariant
            p.len() > 0,
            i <= s.len(),
            split_last_from(s@, p@, i as int) == split_last(s@, p@),
        decreases s.len() - i,
    {
        match find_from_vec(s, p, i) {
            None => {
                return subvec(s, i, s.len());
            },
            Some(k) => {
                proof { lemma_find_from_bounds(s@, p@, i as int); }
                i = k + p.len();
            },
        }
    }
}

pub fn split_first_vec(s: &Vec<char>, p: &Vec<char>) -> (r: Vec<char>)
    ensures
        r@ == split_first(s@, p@),
{
    match find_vec(s, p) {
        None => subvec(s, 0, s.len()),
        Some(k) => {
            proof { lemma_find_from_bounds(s@, p@, 0); }
            subvec(s, 0, k)
        },
    }
}

/// Index reached by stripping `p` from the front of the text at `i`, as often as it is there.
pub open spec fn strip_prefixes_from(s: Seq<char>, p: Seq<char>, i: int) -> int
    decreases s.len() - i,
{
    if p.len() > 0 && matches_at(s, p, i) {
        strip_prefixes_from(s, p, i + p.len())
    } else {
        i
    }
}

/// `str::trim_start_matches` with a string pattern.
pub open spec fn trim_start_matches(s: Seq<char>, p: Seq<char>) -> Seq<char> {
    s.subrange(strip_prefixes_from(s, p, 0), s.len() as int)
}

/// Index reached by stripping `p` from the back of the text before `j`, as often as it is there.
pub open spec fn strip_suffixes_before(s: Seq<char>, p: Seq<char>, j: int) -> int
    decreases j,
{
    if p.len() > 0 && matches_at(s, p, j - p.len()) {
        strip_suffixes_before(s, p, j - p.len())
    } else {
        j
    }
}

/// `str::trim_end_matches` with a string pattern.
pub open spec fn trim_end_matches(s: Seq<char>, p: Seq<char>) -> Seq<char> {
    s.subrange(0, strip_suffixes_before(s, p, s.len() as int))
}

pub proof fn lemma_strip_prefixes_bounds(s: Seq<char>, p: Seq<char>, i: int)
    requires
        0 <= i <= s.len(),
    ensures
        i <= strip_prefixes_from(s, p, i) <= s.len(),
    decreases s.len() - i,
{
    if p.len() > 0 && matches_at(s, p, i) {
        lemma_strip_prefixes_bounds(s, p, i + p.len());
    }
}

pub proof fn lemma_strip_suffixes_bounds(s: Seq<char>, p: Seq<char>, j: int)
    requires
        0 <= j <= s.len(),
    ensures
        0 <= strip_suffixes_before(s, p, j) <= j,
    decreases j,
{
    if p.len() > 0 && matches_at(s, p, j - p.len()) {
        lemma_strip_suffixes_bounds(s, p, j - p.len());
    }
}

pub fn trim_start_matches_vec(s: &Vec<char>, p: &Vec<char>) -> (r: Vec<char>)
    ensures
        r@ == trim_start_matches(s@, p@),
{
    let mut i: usize = 0;
    while p.len() > 0 && matches_at_vec(s, p, i)
        invariant
            i <= s.len(),
            strip_prefixes_from(s@, p@, 0) == strip_prefixes_from(s@, p@, i as int),
        decreases s.len() - i,
    {
        i = i + p.len();
    }
    subvec(s, i, s.len())
}

pub fn trim_end_matches_vec(s: &Vec<char>, p: &Vec<char>) -> (r: Vec<char>)
    ensures
        r@ == trim_end_matches(s@, p@),
{
    let mut j: usize = s.len();
    while p.len() > 0 && p.len() <= j && matches_at_vec(s, p, j - p.len())
        invariant
            j <= s.len(),
            strip_suffixes_before(s@, p@, s@.len() as int) == strip_suffixes_before(s@, p@, j as int),
        decreases j,
    {
        j = j - p.len();
    }
    subvec(s, 0, j)
}

/// Copy of a vector of characters.
pub fn copy_vec(s: &Vec<char>) -> (r: Vec<char>)
    ensures
        r@ == s@,
{
    let r = subvec(s, 0, s.len());
    assert(s@.subrange(0, s@.len() as int) =~= s@);
    r
}

// ---------------------------------------------------------------------------
// Numbers
// ---------------------------------------------------------------------------

pub open spec fn digit_char(d: int) -> char {
    if d == 0 { '0' } else if d == 1 { '1' } else if d == 2 { '2' } else if d == 3 { '3' }
    else if d == 4 { '4' } else if d == 5 { '5' } else if d == 6 { '6' } else if d == 7 { '7' }
    else if d == 8 { '8' } else { '9' }
}

/// The decimal digits of `n`, as `Display` prints an unsigned integer.
pub open spec fn decimal(n: nat) -> Seq<char>
    decreases n,
{
    if n < 10 {
        seq![digit_char(n as int)]
    } else {
        decimal(n / 10) + seq![digit_char((n % 10) as int)]
    }
}

/// Every character of a decimal text is a digit.
pub proof fn lemma_decimal_digits(n: nat)
    ensures
        decimal(n).len() >= 1,
        forall|i: int| 0 <= i < decimal(n).len() ==> '0' <= #[trigger] decimal(n)[i] <= '9',
    decreases n,
{
    if n >= 10 {
        lemma_decimal_digits(n / 10);
        let d = decimal(n / 10);
        assert forall|i: int| 0 <= i < decimal(n).len() implies '0' <= #[trigger] decimal(n)[i] <= '9' by {
            if i < d.len() {
                assert(decimal(n)[i] == d[i]);
            }
        }
    }
}

proof fn lemma_digit_char_injective(x: int, y: int)
    requires
        0 <= x < 10,
        0 <= y < 10,
        digit_char(x) == digit_char(y),
    ensures
        x == y,
{
    assert(x == 0 || x == 1 || x == 2 || x == 3 || x == 4 || x == 5 || x == 6 || x == 7 || x == 8 || x == 9);
    assert(y == 0 || y == 1 || y == 2 || y == 3 || y == 4 || y == 5 || y == 6 || y == 7 || y == 8 || y == 9);
}

/// Two numbers with the same decimal text are the same number.
pub proof fn lemma_decimal_injective(a: nat, b: nat)
    requires
        decimal(a) == decimal(b),
    ensures
        a == b,
    decreases a,
{
    if a >= 10 {
        lemma_decimal_digits(a / 10);
        assert(decimal(a) == decimal(a / 10) + seq![digit_char((a % 10) as int)]);
    }
    if b >= 10 {
        lemma_decimal_digits(b / 10);
        assert(decimal(b) == decimal(b / 10) + seq![digit_char((b % 10) as int)]);
    }
    if a >= 10 && b >= 10 {
        let da = decimal(a);
        let db = decimal(b);
        assert(da.last() == digit_char((a % 10) as int));
        assert(db.last() == digit_char((b % 10) as int));
        lemma_digit_char_injective((a % 10) as int, (b % 10) as int);
        assert(da.drop_last() =~= decimal(a / 10));
        assert(db.drop_last() =~= decimal(b / 10));
        lemma_decimal_injective(a / 10, b / 10);
        assert(a == 10 * (a / 10) + a % 10);
        assert(b == 10 * (b / 10) + b % 10);
    } else if a < 10 && b < 10 {
        assert(decimal(a) == seq![digit_char(a as int)]);
        assert(decimal(b) == seq![digit_char(b as int)]);
        let ca = digit_char(a as int);
        let cb = digit_char(b as int);
        assert(seq![ca][0] == ca);
        assert(seq![cb][0] == cb);
        assert(decimal(a)[0] == decimal(b)[0]);
        assert(ca == cb);
        lemma_digit_char_injective(a as int, b as int);
    } else {
        assert(decimal(a).len() != decimal(b).len());
    }
}

fn exec_digit(d: usize) -> (c: char)
    requires
        d < 10,
    ensures
        c == digit_char(d as int),
{
    if d == 0 { '0' } else if d == 1 { '1' } else if d == 2 { '2' } else if d == 3 { '3' }
    else if d == 4 { '4' } else if d == 5 { '5' } else if d == 6 { '6' } else if d == 7 { '7' }
    else if d == 8 { '8' } else { '9' }
}

pub fn decimal_vec(n: usize) -> (r: Vec<char>)
    ensures
        r@ == decimal(n as nat),
    decreases n,
{
    if n < 10 {
        single(exec_digit(n))
    } else {
        let mut r = decimal_vec(n / 10);
        r.push(exec_digit(n % 10));
        r
    }
}

pub fn decimal_u64_vec(n: u64) -> (r: Vec<char>)
    ensures
        r@ == decimal(n as nat),
    decreases n,
{
    if n < 10 {
        single(exec_digit(n as usize))
    } else {
        let mut r = decimal_u64_vec(n / 10);
        r.push(exec_digit((n % 10) as usize));
        r
    }
}

pub fn decimal_string(n: usize) -> (r: String)
    ensures
        r@ == decimal(n as nat),
{
    let v = decimal_vec(n);
    string_of(v.as_slice())
}

// ---------------------------------------------------------------------------
// Joining and case
// ---------------------------------------------------------------------------

/// `[String]::join` / `Vec<&str>::join`.
pub open spec fn join(l: Seq<Seq<char>>, sep: Seq<char>) -> Seq<char>
    decreases l.len(),
{
    if l.len() == 0 {
        Seq::empty()
    } else if l.len() == 1 {
        l[0]
    } else {
        join(l.drop_last(), sep) + sep + l.last()
    }
}

pub fn join_vec(l: &Vec<Vec<char>>, sep: &Vec<char>) -> (r: Vec<char>)
    ensures
        r@ == join(views(l@), sep@),
{
    let mut out: Vec<char> = Vec::new();
    let mut k: usize = 0;
    assert(views(l@).subrange(0, 0) =~= Seq::<Seq<char>>::empty());
    while k < l.len()
        invariant
            k <= l.len(),
            out@ == join(views(l@).subrange(0, k as int), sep@),
        decreases l.len() - k,
    {
        if k > 0 {
            append_vec(&mut out, sep);
        }
        append_vec(&mut out, &l[k]);
        assert(views(l@).subrange(0, k + 1).drop_last() =~= views(l@).subrange(0, k as int));
        if k == 0 {
            assert(out@ =~= join(views(l@).subrange(0, 1), sep@));
        }
        k = k + 1;
    }
    assert(views(l@).subrange(0, l@.len() as int) =~= views(l@));
    out
}

/// ASCII lowercase of one character (`char::to_ascii_lowercase`).
pub open spec fn ascii_lower(c: char) -> char {
    if 'A' <= c && c <= 'Z' {
        ((c as u32) + 32) as char
    } else {
        c
    }
}

/// `str::eq_ignore_ascii_case`.
pub open spec fn eq_ignore_ascii_case(a: Seq<char>, b: Seq<char>) -> bool {
    a.len() == b.len() && forall|i: int| 0 <= i < a.len() ==> ascii_lower(#[trigger] a[i]) == ascii_lower(b[i])
}

fn exec_ascii_lower(c: char) -> (r: char)
    ensures
        r == ascii_lower(c),
{
    if 'A' <= c && c <= 'Z' {
        let u: u32 = c as u32;
        assert(0x41 <= u <= 0x5A);
        let b: u8 = (u + 32) as u8;
        b as char
    } else {
        c
    }
}

pub fn eq_ignore_ascii_case_vec(a: &Vec<char>, b: &Vec<char>) -> (r: bool)
    ensures
        r == eq_ignore_ascii_case(a@, b@),
{
    if a.len() != b.len() {
        return false;
    }
    let mut i: usize = 0;
    while i < a.len()
        invariant
            a.len() == b.len(),
            i <= a.len(),
            forall|k: int| 0 <= k < i ==> ascii_lower(#[trigger] a@[k]) == ascii_lower(b@[k]),
        decreases a.len() - i,
    {
        if exec_ascii_lower(a[i]) != exec_ascii_lower(b[i]) {
            return false;
        }
        i = i + 1;
    }
    true
}

} // verus!
