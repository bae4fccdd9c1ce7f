//! Syntax trees as the parsers read them: the nodes of a tree-sitter tree
//! listed in preorder, each with its depth, and navigation over that list.
//!
//! The children of node `i` are found by walking its subtree: the first child
//! starts at `i + 1`, and each next child starts where the subtree of the
//! previous one ends.

use vstd::prelude::*;

use crate::ir::Span;

verus! {

/// The grammars the parsers read source text with.
#[derive(Debug, Clone, Copy, PartialEq, Eq, Structural)]
pub enum Grammar {
    Rust,
    Python,
    Java,
    TypeScript,
}

/// One node of a syntax tree.
#[derive(Debug, Clone)]
pub struct SyntaxNode {
    /// The grammar's name for the node (`Node::kind`).
    pub kind: String,
    /// The field under which the parent holds the node, if any.
    pub field: Option<String>,
    pub start_byte: usize,
    pub end_byte: usize,
    /// Zero-based line of the first byte.
    pub start_row: usize,
    /// Zero-based line of the end position.
    pub end_row: usize,
    /// Distance from the root, which has depth 0.
    pub depth: usize,
    /// Whether the node is, or contains, a syntax error.
    pub has_error: bool,
}

/// Why no tree came back.
#[derive(Debug, Clone)]
pub enum SyntaxError {
    /// The grammar was refused by the parser; the message of that refusal.
    Language(String),
    /// The parser returned no tree.
    NoTree,
}

/// The syntax tree `grammar` gives `source`, as tree-sitter builds it: all of
/// its nodes (named and anonymous) in preorder.
pub uninterp spec fn syntax_tree(grammar: Grammar, source: Seq<u8>) -> Result<Seq<SyntaxNode>, SyntaxError>;

pub open spec fn tree_ok(v: Seq<SyntaxNode>) -> Result<Seq<SyntaxNode>, SyntaxError> {
    Ok(v)
}

pub open spec fn tree_err(e: SyntaxError) -> Result<Seq<SyntaxNode>, SyntaxError> {
    Err(e)
}

/// Every node lies within a text of `len` bytes, and its rows, which count the
/// line breaks before a position, stay below `usize::MAX`.
pub open spec fn placed(t: Seq<SyntaxNode>, len: nat) -> bool {
    forall|i: int|
        0 <= i < t.len() ==> {
            &&& #[trigger] t[i].start_byte <= t[i].end_byte
            &&& t[i].end_byte <= len
            &&& t[i].start_row < usize::MAX
            &&& t[i].end_row < usize::MAX
        }
}

#[verifier::external_type_specification]
#[verifier::external_body]
pub struct ExTree(tree_sitter::Tree);

/// A syntax tree together with the grammar and the text it was parsed from.
/// Only [`parse_tree`] makes one.
pub struct ParsedTree {
    tree: tree_sitter::Tree,
    grammar: Grammar,
    source: Vec<u8>,
}

impl View for ParsedTree {
    type V = (Grammar, Seq<u8>);

    closed spec fn view(&self) -> (Grammar, Seq<u8>) {
        (self.grammar, self.source@)
    }
}

/// `tree_sitter::Parser` set to the grammar's language and run on `source`;
/// the tree is kept with what it was parsed from.
#[verifier::external_body]
fn parse_tree(grammar: Grammar, source: &[u8]) -> (r: Result<ParsedTree, SyntaxError>)
    ensures
        match r {
            Ok(p) => p@ == (grammar, source@) && syntax_tree(grammar, source@) is Ok,
            Err(e) => syntax_tree(grammar, source@) == tree_err(e),
        },
{
    let language: tree_sitter::Language = match grammar {
        Grammar::Rust => tree_sitter_rust::LANGUAGE.into(),
        Grammar::Python => tree_sitter_python::LANGUAGE.into(),
        Grammar::Java => tree_sitter_java::LANGUAGE.into(),
        Grammar::TypeScript => tree_sitter_typescript::LANGUAGE_TYPESCRIPT.into(),
    };
    let mut parser = tree_sitter::Parser::new();
    parser.set_language(&language).map_err(|e| SyntaxError::Language(e.to_string()))?;
    let tree = parser.parse(source, None).ok_or(SyntaxError::NoTree)?;
    Ok(ParsedTree { tree, grammar, source: source.to_vec() })
}

/// The nodes of a parsed tree in preorder (`TreeCursor::goto_descendant` over
/// `Node::descendant_count`). The tree is a function of the grammar and the
/// text; its nodes lie within the text.
#[verifier::external_body]
fn tree_nodes(p: &ParsedTree) -> (r: Vec<SyntaxNode>)
    ensures
        syntax_tree(p@.0, p@.1) == tree_ok(r@),
        placed(r@, p@.1.len()),
{
    let mut c = p.tree.walk();
    (0..p.tree.root_node().descendant_count()).map(|i| {
        c.goto_descendant(i);
        let n = c.node();
        SyntaxNode { kind: n.kind().to_string(), field: c.field_name().map(String::from), start_byte: n.start_byte(), end_byte: n.end_byte(), start_row: n.start_position().row, end_row: n.end_position().row, depth: c.depth() as usize, has_error: n.has_error() }
    }).collect()
}

/// The syntax tree of `source` under `grammar`, or why there is none.
pub fn parse_syntax(grammar: Grammar, source: &[u8]) -> (r: Result<Vec<SyntaxNode>, SyntaxError>)
    ensures
        match r {
            Ok(v) => syntax_tree(grammar, source@) == tree_ok(v@)
                && placed(v@, source@.len()),
            Err(e) => syntax_tree(grammar, source@) == tree_err(e),
        },
{
    match parse_tree(grammar, source) {
        Ok(p) => Ok(tree_nodes(&p)),
        Err(e) => Err(e),
    }
}

/// `str == str`: the same characters.
#[verifier::external_body]
pub(crate) fn same_text(a: &str, b: &str) -> (r: bool)
    ensures
        r == (a@ == b@),
{
    a == b
}

// ---------------------------------------------------------------------------
// Navigation
// ---------------------------------------------------------------------------

/// The first index from `k` on that is outside the subtree of `i`.
pub open spec fn scan_end(t: Seq<SyntaxNode>, i: int, k: int) -> int
    decreases t.len() - k,
{
    if k < 0 || k >= t.len() || !(0 <= i < t.len()) || t[k].depth <= t[i].depth {
        k
    } else {
        scan_end(t, i, k + 1)
    }
}

/// One past the last node of the subtree of `i`.
pub open spec fn subtree_end(t: Seq<SyntaxNode>, i: int) -> int {
    scan_end(t, i, i + 1)
}

pub proof fn lemma_scan_end_bounds(t: Seq<SyntaxNode>, i: int, k: int)
    requires
        0 <= k <= t.len(),
    ensures
        k <= scan_end(t, i, k) <= t.len(),
    decreases t.len() - k,
{
    if k < t.len() && 0 <= i < t.len() && t[k].depth > t[i].depth {
        lemma_scan_end_bounds(t, i, k + 1);
    }
}

pub proof fn lemma_subtree_end_bounds(t: Seq<SyntaxNode>, i: int)
    requires
        0 <= i < t.len(),
    ensures
        i < subtree_end(t, i) <= t.len(),
{
    lemma_scan_end_bounds(t, i, i + 1);
}

/// The first child, from `c` on among the children of `p`, held under `field`.
pub open spec fn field_child_from(t: Seq<SyntaxNode>, p: int, c: int, field: Seq<char>) -> Option<int>
    decreases t.len() - c,
{
    if c < 0 || c >= subtree_end(t, p) || c >= t.len() {
        None
    } else if t[c].field is Some && t[c].field.unwrap()@ == field {
        Some(c)
    } else {
        let e = subtree_end(t, c);
        proof {
            lemma_subtree_end_bounds(t, c);
        }
        if e <= c {
            None
        } else {
            field_child_from(t, p, e, field)
        }
    }
}

/// `Node::child_by_field_name`.
pub open spec fn field_child(t: Seq<SyntaxNode>, p: int, field: Seq<char>) -> Option<int> {
    field_child_from(t, p, p + 1, field)
}

/// The nearest node before `j + 1` at the depth of `i`, unless a shallower one comes first.
pub open spec fn prev_from(t: Seq<SyntaxNode>, i: int, j: int) -> Option<int>
    decreases j + 1,
{
    if j < 0 || j >= t.len() || !(0 <= i < t.len()) || t[j].depth < t[i].depth {
        None
    } else if t[j].depth == t[i].depth {
        Some(j)
    } else {
        prev_from(t, i, j - 1)
    }
}

/// `Node::prev_sibling`.
pub open spec fn prev_sibling(t: Seq<SyntaxNode>, i: int) -> Option<int> {
    prev_from(t, i, i - 1)
}

/// The nearest node before `j + 1` that is shallower than `i`.
pub open spec fn parent_from(t: Seq<SyntaxNode>, i: int, j: int) -> Option<int>
    decreases j + 1,
{
    if j < 0 || j >= t.len() || !(0 <= i < t.len()) {
        None
    } else if t[j].depth < t[i].depth {
        Some(j)
    } else {
        parent_from(t, i, j - 1)
    }
}

/// `Node::parent`.
pub open spec fn parent(t: Seq<SyntaxNode>, i: int) -> Option<int> {
    parent_from(t, i, i - 1)
}

/// `Node::child(0)`.
pub open spec fn first_child(t: Seq<SyntaxNode>, p: int) -> Option<int> {
    if 0 <= p && p + 1 < subtree_end(t, p) {
        Some(p + 1)
    } else {
        None
    }
}

pub proof fn lemma_prev_from_bounds(t: Seq<SyntaxNode>, i: int, j: int)
    ensures
        prev_from(t, i, j) matches Some(k) ==> 0 <= k <= j && k < t.len(),
    decreases j + 1,
{
    if j >= 0 && j < t.len() && 0 <= i < t.len() && t[j].depth > t[i].depth {
        lemma_prev_from_bounds(t, i, j - 1);
    }
}

pub proof fn lemma_parent_from_bounds(t: Seq<SyntaxNode>, i: int, j: int)
    ensures
        parent_from(t, i, j) matches Some(k) ==> 0 <= k <= j && k < t.len(),
    decreases j + 1,
{
    if j >= 0 && j < t.len() && 0 <= i < t.len() && t[j].depth >= t[i].depth {
        lemma_parent_from_bounds(t, i, j - 1);
    }
}

/// Whether node `i` has the kind `k`.
pub open spec fn kind_is(t: Seq<SyntaxNode>, i: int, k: Seq<char>) -> bool {
    0 <= i < t.len() && t[i].kind@ == k
}

/// `Node::utf8_text`: the node's bytes of `source`, when they are UTF-8.
pub open spec fn node_text(t: Seq<SyntaxNode>, i: int, source: Seq<u8>) -> Option<Seq<char>> {
    if 0 <= i < t.len() && t[i].start_byte <= t[i].end_byte <= source.len()
        && vstd::utf8::valid_utf8(source.subrange(t[i].start_byte as int, t[i].end_byte as int)) {
        Some(vstd::utf8::decode_utf8(source.subrange(t[i].start_byte as int, t[i].end_byte as int)))
    } else {
        None
    }
}

/// The node's span, with one-based lines.
pub open spec fn node_span(n: SyntaxNode) -> Span {
    Span {
        start_byte: n.start_byte,
        end_byte: n.end_byte,
        start_line: (n.start_row + 1) as usize,
        end_line: (n.end_row + 1) as usize,
    }
}

// ---------------------------------------------------------------------------
// Executable navigation
// ---------------------------------------------------------------------------

pub fn find_subtree_end(t: &Vec<SyntaxNode>, i: usize) -> (r: usize)
    requires
        i < t.len(),
    ensures
        r as int == subtree_end(t@, i as int),
        i < r <= t.len(),
{
    let mut k: usize = i + 1;
    while k < t.len() && t[k].depth > t[i].depth
        invariant
            i < k <= t.len(),
            scan_end(t@, i as int, k as int) == subtree_end(t@, i as int),
        decreases t.len() - k,
    {
        k = k + 1;
    }
    k
}

pub fn kind_is_exec(t: &Vec<SyntaxNode>, i: usize, k: &str) -> (r: bool)
    requires
        i < t.len(),
    ensures
        r == kind_is(t@, i as int, k@),
{
    same_text(t[i].kind.as_str(), k)
}

pub fn find_field_child(t: &Vec<SyntaxNode>, p: usize, field: &str) -> (r: Option<usize>)
    requires
        p < t.len(),
    ensures
        match r {
            Some(c) => field_child(t@, p as int, field@) == Some(c as int) && p < c < t.len(),
            None => field_child(t@, p as int, field@) is None,
        },
{
    let end = find_subtree_end(t, p);
    let mut c: usize = p + 1;
    while c < end
        invariant
            p < c,
            end as int == subtree_end(t@, p as int),
            end <= t.len(),
            field_child_from(t@, p as int, c as int, field@) == field_child(t@, p as int, field@),
        decreases t.len() - c,
    {
        let hit = match &t[c].field {
            Some(f) => same_text(f.as_str(), field),
            None => false,
        };
        if hit {
            return Some(c);
        }
        let e = find_subtree_end(t, c);
        c = e;
    }
    None
}

pub fn find_prev_sibling(t: &Vec<SyntaxNode>, i: usize) -> (r: Option<usize>)
    requires
        i < t.len(),
    ensures
        match r {
            Some(k) => prev_sibling(t@, i as int) == Some(k as int) && k < i,
            None => prev_sibling(t@, i as int) is None,
        },
{
    let mut j: usize = i;
    while j > 0
        invariant
            j <= i < t.len(),
            prev_from(t@, i as int, j - 1) == prev_sibling(t@, i as int),
        decreases j,
    {
        if t[j - 1].depth < t[i].depth {
            return None;
        } else if t[j - 1].depth == t[i].depth {
            return Some(j - 1);
        }
        j = j - 1;
    }
    None
}

pub fn find_parent(t: &Vec<SyntaxNode>, i: usize) -> (r: Option<usize>)
    requires
        i < t.len(),
    ensures
        match r {
            Some(k) => parent(t@, i as int) == Some(k as int) && k < i,
            None => parent(t@, i as int) is None,
        },
{
    let mut j: usize = i;
    while j > 0
        invariant
            j <= i < t.len(),
            parent_from(t@, i as int, j - 1) == parent(t@, i as int),
        decreases j,
    {
        if t[j - 1].depth < t[i].depth {
            return Some(j - 1);
        }
        j = j - 1;
    }
    None
}

pub fn find_first_child(t: &Vec<SyntaxNode>, p: usize) -> (r: Option<usize>)
    requires
        p < t.len(),
    ensures
        match r {
            Some(c) => first_child(t@, p as int) == Some(c as int) && c < t.len(),
            None => first_child(t@, p as int) is None,
        },
{
    let e = find_subtree_end(t, p);
    if p + 1 < e {
        Some(p + 1)
    } else {
        None
    }
}

pub fn node_text_exec(t: &Vec<SyntaxNode>, i: usize, source: &[u8]) -> (r: Option<String>)
    requires
        i < t.len(),
    ensures
        match r {
            Some(s) => node_text(t@, i as int, source@) == Some(s@),
            None => node_text(t@, i as int, source@) is None,
        },
{
    let a = t[i].start_byte;
    let b = t[i].end_byte;
    if a <= b && b <= source.len() {
        let bytes = &source[a..b];
        match crate::text::utf8_str(bytes) {
            Some(s) => Some(s.to_owned()),
            None => None,
        }
    } else {
        None
    }
}

pub fn node_span_exec(t: &Vec<SyntaxNode>, i: usize, Ghost(len): Ghost<nat>) -> (r: Span)
    requires
        i < t.len(),
        placed(t@, len),
    ensures
        r == node_span(t@[i as int]),
{
    let n = &t[i];
    assert(t@[i as int].start_byte <= t@[i as int].end_byte);
    Span::new(n.start_byte, n.end_byte, n.start_row + 1, n.end_row + 1)
}

} // verus!
