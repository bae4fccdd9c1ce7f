//! What the parsers share: qualified names built from the file path, the
//! one-line signature of a node, `/** ... */` documentation blocks, and the
//! construction of a symbol from a node.

use vstd::prelude::*;

use crate::ir::{
    opt_id_view, Reference, ReferenceView, reference_views, symbol_views, AnnotationView, Annotation, Doc, DocFormat, DocView, Span, Symbol, SymbolId,
    SymbolIdView, SymbolKind, SymbolView, Visibility, annotation_views, strs, doc_view,
    id_views, opt_str,
};
use crate::parser::syntax::{
    field_child, find_field_child, find_subtree_end, node_span, node_text, node_text_exec, node_span_exec,
    placed, subtree_end, SyntaxNode,
};
use crate::paths::{without_extension, without_extension_vec};
use crate::text::{
    append_vec, chars_of, find, find_vec, join, join_vec, lines, lines_vec, single, strip_cr,
    string_of, subvec, trim, trim_end_matches, trim_end_matches_vec, trim_start_matches,
    trim_start_matches_vec, trim_vec, utf8_len, utf8_len_exec, utf8_bytes, views,
    lemma_find_from_bounds, lemma_views_push,
};

verus! {

// ---------------------------------------------------------------------------
// Qualified names
// ---------------------------------------------------------------------------

/// The text with each `/` and `\` replaced by `sep`.
pub open spec fn replace_seps(s: Seq<char>, sep: Seq<char>) -> Seq<char>
    decreases s.len(),
{
    if s.len() == 0 {
        Seq::empty()
    } else {
        replace_seps(s.drop_last(), sep) + (if s.last() == '/' || s.last() == '\\' {
            sep
        } else {
            seq![s.last()]
        })
    }
}

/// The file path without its extension, its separators replaced by `sep`,
/// then `joiner` and the name.
pub open spec fn qualified_name(path: Seq<char>, name: Seq<char>, sep: Seq<char>, joiner: Seq<char>) -> Seq<char> {
    replace_seps(without_extension(path), sep) + joiner + name
}

pub fn build_qualified_name(path: &str, name: &str, sep: &str, joiner: &str) -> (r: String)
    ensures
        r@ == qualified_name(path@, name@, sep@, joiner@),
{
    let p = chars_of(path);
    let stem = without_extension_vec(&p);
    let sepv = chars_of(sep);
    let mut out: Vec<char> = Vec::new();
    let mut k: usize = 0;
    while k < stem.len()
        invariant
            k <= stem.len(),
            sepv@ == sep@,
            out@ == replace_seps(stem@.take(k as int), sep@),
        decreases stem.len() - k,
    {
        let c = stem[k];
        assert(stem@.take(k + 1).drop_last() =~= stem@.take(k as int));
        if c == '/' || c == '\\' {
            append_vec(&mut out, &sepv);
        } else {
            out.push(c);
        }
        k = k + 1;
    }
    assert(stem@.take(k as int) =~= stem@);
    let j = chars_of(joiner);
    append_vec(&mut out, &j);
    let n = chars_of(name);
    append_vec(&mut out, &n);
    string_of(out.as_slice())
}

// ---------------------------------------------------------------------------
// Signatures
// ---------------------------------------------------------------------------

/// `text.lines().next().unwrap_or(text)`.
pub open spec fn first_line(s: Seq<char>) -> Seq<char> {
    match find(s, seq!['\n']) {
        None => s,
        Some(j) => strip_cr(s.subrange(0, j)),
    }
}

/// The number of characters, from `k` on, whose UTF-8 bytes fit in `n`.
pub open spec fn fit_chars(s: Seq<char>, k: int, n: int) -> int
    decreases s.len() - k,
{
    if k < 0 || k >= s.len() || utf8_bytes(s.take(k + 1)) > n {
        k
    } else {
        fit_chars(s, k + 1, n)
    }
}

/// A signature longer than 200 bytes cut to its first 200 bytes and `...`;
/// `None` where byte 200 falls inside a character, where the cut cannot be made.
pub open spec fn cut_signature(sig: Seq<char>) -> Option<Seq<char>> {
    if utf8_bytes(sig) > 200 {
        let k = fit_chars(sig, 0, 200);
        if utf8_bytes(sig.take(k)) == 200 {
            Some(sig.take(k) + "..."@)
        } else {
            None
        }
    } else {
        Some(sig)
    }
}

/// The first line of a node's text, `tail` characters stripped from its end,
/// trimmed, and cut.
pub open spec fn signature_of(text: Seq<char>, tail: char) -> Option<Seq<char>> {
    cut_signature(trim(trim_end_matches(first_line(text), seq![tail])))
}

/// The signature of node `i`: `Some(None)` when its text is not UTF-8, and
/// `None` where the cut cannot be made.
pub open spec fn node_signature(t: Seq<SyntaxNode>, i: int, source: Seq<u8>, tail: char) -> Option<Option<Seq<char>>> {
    match node_text(t, i, source) {
        None => Some(None),
        Some(text) => match signature_of(text, tail) {
            None => None,
            Some(s) => Some(Some(s)),
        },
    }
}

proof fn lemma_utf8_bytes_take(s: Seq<char>, k: int)
    requires
        0 <= k < s.len(),
    ensures
        utf8_bytes(s.take(k + 1)) == utf8_bytes(s.take(k)) + utf8_len(s[k]),
{
    assert(s.take(k + 1).drop_last() =~= s.take(k));
}

proof fn lemma_utf8_bytes_grow(s: Seq<char>, k: int, j: int)
    requires
        0 <= k <= j <= s.len(),
    ensures
        utf8_bytes(s.take(k)) <= utf8_bytes(s.take(j)),
    decreases j - k,
{
    if k < j {
        lemma_utf8_bytes_grow(s, k, j - 1);
        lemma_utf8_bytes_take(s, j - 1);
    }
}

fn first_line_vec(s: &Vec<char>) -> (r: Vec<char>)
    ensures
        r@ == first_line(s@),
{
    let nl = single('\n');
    match find_vec(s, &nl) {
        None => subvec(s, 0, s.len()),
        Some(j) => {
            proof { lemma_find_from_bounds(s@, nl@, 0); }
            let mut line = subvec(s, 0, j);
            if line.len() > 0 && line[line.len() - 1] == '\r' {
                line.pop();
            }
            assert(line@ =~= strip_cr(s@.subrange(0, j as int)));
            line
        },
    }
}

fn cut_signature_vec(sig: &Vec<char>) -> (r: Option<Vec<char>>)
    ensures
        match r {
            Some(v) => cut_signature(sig@) == Some(v@),
            None => cut_signature(sig@) is None,
        },
{
    // count bytes until the text is known to exceed 200 bytes
    let mut k: usize = 0;
    let mut bytes: usize = 0;
    while k < sig.len() && bytes <= 200
        invariant
            k <= sig.len(),
            bytes as int == utf8_bytes(sig@.take(k as int)),
            bytes <= 204,
        decreases sig.len() - k,
    {
        proof { lemma_utf8_bytes_take(sig@, k as int); }
        bytes = bytes + utf8_len_exec(sig[k]);
        k = k + 1;
    }
    if bytes <= 200 {
        assert(sig@.take(k as int) =~= sig@);
        return Some(subvec(sig, 0, sig.len()));
    }
    proof { lemma_utf8_bytes_grow(sig@, k as int, sig@.len() as int); }
    assert(sig@.take(sig@.len() as int) =~= sig@);
    // find the longest prefix within 200 bytes
    let mut m: usize = 0;
    let mut used: usize = 0;
    while m < sig.len() && used + utf8_len_exec(sig[m]) <= 200
        invariant
            m <= sig.len(),
            used as int == utf8_bytes(sig@.take(m as int)),
            used <= 200,
            fit_chars(sig@, m as int, 200) == fit_chars(sig@, 0, 200),
        decreases sig.len() - m,
    {
        proof { lemma_utf8_bytes_take(sig@, m as int); }
        used = used + utf8_len_exec(sig[m]);
        m = m + 1;
    }
    proof {
        if m < sig.len() {
            lemma_utf8_bytes_take(sig@, m as int);
        }
    }
    if used == 200 {
        let mut out = subvec(sig, 0, m);
        out.push('.');
        out.push('.');
        out.push('.');
        assert(out@ =~= sig@.take(m as int) + "..."@) by {
            reveal_strlit("...");
        }
        Some(out)
    } else {
        None
    }
}

pub fn signature_of_vec(text: &Vec<char>, tail: char) -> (r: Option<Vec<char>>)
    ensures
        match r {
            Some(v) => signature_of(text@, tail) == Some(v@),
            None => signature_of(text@, tail) is None,
        },
{
    let line = first_line_vec(text);
    let tv = single(tail);
    let stripped = trim_end_matches_vec(&line, &tv);
    let sig = trim_vec(&stripped);
    cut_signature_vec(&sig)
}

/// The signature of node `i` (the nodes' `extract_signature`).
pub fn extract_signature(t: &Vec<SyntaxNode>, i: usize, source: &[u8], tail: char) -> (r: Option<Option<String>>)
    requires
        i < t.len(),
    ensures
        match r {
            None => node_signature(t@, i as int, source@, tail) is None,
            Some(x) => node_signature(t@, i as int, source@, tail) == Some(opt_str(x)),
        },
{
    match node_text_exec(t, i, source) {
        None => Some(None),
        Some(text) => {
            let v = chars_of(text.as_str());
            match signature_of_vec(&v, tail) {
                None => None,
                Some(s) => Some(Some(string_of(s.as_slice()))),
            }
        },
    }
}

// ---------------------------------------------------------------------------
// Documentation blocks
// ---------------------------------------------------------------------------

/// A documentation line: trimmed, its leading `*` stripped, trimmed again.
pub open spec fn clean_doc_line(l: Seq<char>) -> Seq<char> {
    trim(trim_start_matches(trim(l), seq!['*']))
}

/// The cleaned lines that are not empty.
pub open spec fn clean_doc_lines(ls: Seq<Seq<char>>) -> Seq<Seq<char>>
    decreases ls.len(),
{
    if ls.len() == 0 {
        Seq::empty()
    } else {
        let rest = clean_doc_lines(ls.drop_last());
        let c = clean_doc_line(ls.last());
        if c.len() == 0 {
            rest
        } else {
            rest.push(c)
        }
    }
}

/// The text of a `/** ... */` block without its delimiters and margins, one
/// line per non-empty line.
pub open spec fn block_doc_raw(text: Seq<char>) -> Seq<char> {
    join(clean_doc_lines(lines(trim_end_matches(trim_start_matches(text, "/**"@), "*/"@))), "\n"@)
}

/// `raw.lines().next()`.
pub open spec fn first_of_lines(raw: Seq<char>) -> Option<Seq<char>> {
    if lines(raw).len() > 0 {
        Some(lines(raw)[0])
    } else {
        None
    }
}

/// The documentation a `/** ... */` block gives.
pub open spec fn block_doc(text: Seq<char>, format: DocFormat) -> DocView {
    DocView { raw: block_doc_raw(text), format, summary: first_of_lines(block_doc_raw(text)) }
}

pub fn first_of_lines_vec(raw: &Vec<char>) -> (r: Option<String>)
    ensures
        opt_str(r) == first_of_lines(raw@),
{
    let ls = lines_vec(raw);
    if ls.len() > 0 {
        assert(views(ls@)[0] == ls@[0]@);
        Some(string_of(ls[0].as_slice()))
    } else {
        None
    }
}

pub fn block_doc_exec(text: &Vec<char>, format: DocFormat) -> (r: Doc)
    ensures
        r@ == block_doc(text@, format),
{
    let open = chars_of("/**");
    let close = chars_of("*/");
    let a = trim_start_matches_vec(text, &open);
    let b = trim_end_matches_vec(&a, &close);
    let ls = lines_vec(&b);
    let star = single('*');
    let mut kept: Vec<Vec<char>> = Vec::new();
    let mut k: usize = 0;
    while k < ls.len()
        invariant
            k <= ls.len(),
            star@ == seq!['*'],
            views(kept@) == clean_doc_lines(views(ls@).take(k as int)),
        decreases ls.len() - k,
    {
        let t1 = trim_vec(&ls[k]);
        let t2 = trim_start_matches_vec(&t1, &star);
        let c = trim_vec(&t2);
        assert(views(ls@).take(k + 1).drop_last() =~= views(ls@).take(k as int));
        assert(views(ls@).take(k + 1).last() == ls@[k as int]@);
        if c.len() > 0 {
            proof { lemma_views_push(kept@, c); }
            kept.push(c);
        }
        k = k + 1;
    }
    assert(views(ls@).take(k as int) =~= views(ls@));
    let nl = single('\n');
    let raw = join_vec(&kept, &nl);
    proof { reveal_strlit("\n"); }
    let summary = first_of_lines_vec(&raw);
    assert(nl@ == "\n"@);
    assert(views(kept@) == clean_doc_lines(lines(trim_end_matches(trim_start_matches(text@, "/**"@), "*/"@))));
    assert(raw@ == block_doc_raw(text@));
    Doc { raw: string_of(raw.as_slice()), format, summary }
}

// ---------------------------------------------------------------------------
// Symbols
// ---------------------------------------------------------------------------

/// The symbol a parser makes of a node: its id keyed by the file and the
/// node's byte range, no children.
pub open spec fn node_symbol(
    path: Seq<char>,
    n: SyntaxNode,
    kind: SymbolKind,
    qname: Seq<char>,
    visibility: Visibility,
    signature: Option<Seq<char>>,
    doc: Option<DocView>,
    parent: Option<SymbolIdView>,
    annotations: Seq<AnnotationView>,
    type_params: Seq<Seq<char>>,
) -> SymbolView {
    SymbolView {
        id: SymbolIdView {
            file_path: path,
            start_byte: n.start_byte,
            end_byte: n.end_byte,
            kind,
            qualified_name: qname,
        },
        kind,
        qualified_name: qname,
        visibility,
        file: path,
        span: node_span(n),
        signature,
        doc,
        parent,
        children: Seq::empty(),
        annotations,
        type_params,
    }
}

pub fn copy_parent(p: Option<&SymbolId>) -> (r: Option<SymbolId>)
    ensures
        opt_id_view(r) == (match p {
            Some(x) => Some(x@),
            None => None::<SymbolIdView>,
        }),
{
    match p {
        Some(x) => Some(x.dup()),
        None => None,
    }
}

pub fn make_symbol(
    path: &str,
    t: &Vec<SyntaxNode>,
    i: usize,
    Ghost(len): Ghost<nat>,
    kind: SymbolKind,
    qname: String,
    visibility: Visibility,
    signature: Option<String>,
    doc: Option<Doc>,
    parent: Option<&SymbolId>,
    annotations: Vec<Annotation>,
    type_params: Vec<String>,
) -> (r: Symbol)
    requires
        i < t.len(),
        placed(t@, len),
    ensures
        r@ == node_symbol(
            path@,
            t@[i as int],
            kind,
            qname@,
            visibility,
            opt_str(signature),
            doc_view(doc),
            match parent {
                Some(x) => Some(x@),
                None => None::<SymbolIdView>,
            },
            annotation_views(annotations@),
            strs(type_params@),
        ),
{
    let span = node_span_exec(t, i, Ghost(len));
    let id = SymbolId::new(path.to_owned(), t[i].start_byte, t[i].end_byte, kind, qname.clone());
    let r = Symbol {
        id,
        kind,
        qualified_name: qname,
        visibility,
        file: path.to_owned(),
        span,
        signature,
        doc,
        parent: copy_parent(parent),
        children: Vec::new(),
        annotations,
        type_params,
    };
    assert(id_views(r.children@) =~= Seq::<SymbolIdView>::empty());
    r
}

// ---------------------------------------------------------------------------
// Node texts
// ---------------------------------------------------------------------------

/// The text of the child of `i` held under `field`.
pub open spec fn field_text(t: Seq<SyntaxNode>, i: int, source: Seq<u8>, field: Seq<char>) -> Option<Seq<char>> {
    match field_child(t, i, field) {
        Some(n) => node_text(t, n, source),
        None => None,
    }
}

/// The text of node `i`, or the empty text.
pub open spec fn text_or_empty(t: Seq<SyntaxNode>, i: int, source: Seq<u8>) -> Seq<char> {
    match node_text(t, i, source) {
        Some(x) => x,
        None => Seq::empty(),
    }
}

pub fn field_text_exec(t: &Vec<SyntaxNode>, i: usize, source: &[u8], field: &str) -> (r: Option<String>)
    requires
        i < t.len(),
    ensures
        opt_str(r) == field_text(t@, i as int, source@, field@),
{
    match find_field_child(t, i, field) {
        Some(n) => node_text_exec(t, n, source),
        None => None,
    }
}

pub fn text_or_empty_exec(t: &Vec<SyntaxNode>, i: usize, source: &[u8]) -> (r: Vec<char>)
    requires
        i < t.len(),
    ensures
        r@ == text_or_empty(t@, i as int, source@),
{
    match node_text_exec(t, i, source) {
        Some(x) => chars_of(x.as_str()),
        None => Vec::new(),
    }
}

/// Where the next child starts after the child at `c`.
pub fn next_child(t: &Vec<SyntaxNode>, c: usize) -> (r: usize)
    requires
        c < t.len(),
    ensures
        r as int == subtree_end(t@, c as int),
        c < r <= t.len(),
{
    find_subtree_end(t, c)
}

/// The view of an optional borrowed symbol id.
pub open spec fn ref_view(p: Option<&SymbolId>) -> Option<SymbolIdView> {
    match p {
        Some(x) => Some(x@),
        None => None,
    }
}

// ---------------------------------------------------------------------------
// What a walk collects
// ---------------------------------------------------------------------------

/// A parsed file as the walks read it: its nodes, bytes and path.
pub struct FileInput {
    pub nodes: Seq<SyntaxNode>,
    pub source: Seq<u8>,
    pub path: Seq<char>,
}

/// Symbols and references collected by a walk.
pub struct Collected {
    pub symbols: Seq<SymbolView>,
    pub references: Seq<ReferenceView>,
}

pub open spec fn file_input(nodes: Seq<SyntaxNode>, source: Seq<u8>, path: Seq<char>) -> FileInput {
    FileInput { nodes, source, path }
}

pub open spec fn nothing() -> Collected {
    Collected { symbols: Seq::empty(), references: Seq::empty() }
}

/// Two walks one after the other; `None` (a walk that cannot finish) wins.
pub open spec fn then(a: Option<Collected>, b: Option<Collected>) -> Option<Collected> {
    match (a, b) {
        (Some(x), Some(y)) => Some(Collected {
            symbols: x.symbols + y.symbols,
            references: x.references + y.references,
        }),
        _ => None,
    }
}

/// The symbols collected so far extend `before` by `c`.
pub open spec fn extends(
    symbols: Seq<Symbol>,
    references: Seq<Reference>,
    before_symbols: Seq<Symbol>,
    before_references: Seq<Reference>,
    c: Collected,
) -> bool {
    &&& symbol_views(symbols) == symbol_views(before_symbols) + c.symbols
    &&& reference_views(references) == reference_views(before_references) + c.references
}

} // verus!
