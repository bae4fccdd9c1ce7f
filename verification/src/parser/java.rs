//! The Java parser: classes, interfaces, enums, methods, constructors and
//! fields with their modifiers, annotations and JavaDoc, and imports.

use vstd::prelude::*;

use crate::error::{WikiGenError, WikiGenResult};
use crate::ir::{
    annotation_views, doc_view, lemma_reference_views_push, lemma_symbol_views_push, opt_str,
    reference_views, strs, symbol_views, Annotation, AnnotationView, Doc, DocFormat, DocView,
    Language, Reference, ReferenceKind, ReferenceTarget, ReferenceTargetView, ReferenceView, Symbol,
    SymbolId, SymbolIdView, SymbolKind, SymbolView, Visibility,
};
use crate::parser::extract::{
    block_doc, block_doc_exec, build_qualified_name, extends, extract_signature, field_text,
    field_text_exec, file_input, make_symbol, next_child, node_signature, node_symbol, nothing,
    qualified_name, ref_view, text_or_empty, text_or_empty_exec, then, Collected, FileInput,
};
use crate::parser::syntax::{
    find_prev_sibling, find_subtree_end, kind_is, kind_is_exec, lemma_subtree_end_bounds,
    node_span, node_span_exec, node_text, node_text_exec, parse_syntax, placed, prev_sibling,
    subtree_end, Grammar, SyntaxNode,
};
use crate::parser::{file_record, parse_result_ok, tree_error, walk_finishes, ParseOutput};
use crate::text::{
    append_vec, chars_of, contains, contains_vec, starts_with, starts_with_vec, string_of,
    trim_start_matches, trim_start_matches_vec,
};

verus! {

/// Parses Java source files.
pub struct JavaParser {
    _private: (),
}

// ---------------------------------------------------------------------------
// What one node gives
// ---------------------------------------------------------------------------

/// The visibility the first `modifiers` child naming one gives; package-private otherwise.
pub open spec fn java_vis_from(t: Seq<SyntaxNode>, src: Seq<u8>, p: int, c: int) -> Visibility
    decreases t.len() - c,
{
    if !(0 <= c < t.len() && c < subtree_end(t, p)) {
        Visibility::Internal
    } else if kind_is(t, c, "modifiers"@) && contains(text_or_empty(t, c, src), "public"@) {
        Visibility::Public
    } else if kind_is(t, c, "modifiers"@) && contains(text_or_empty(t, c, src), "protected"@) {
        Visibility::Protected
    } else if kind_is(t, c, "modifiers"@) && contains(text_or_empty(t, c, src), "private"@) {
        Visibility::Private
    } else {
        proof {
            lemma_subtree_end_bounds(t, c);
        }
        java_vis_from(t, src, p, subtree_end(t, c))
    }
}

/// The JavaDoc of a node: a `/** */` block comment just before it.
pub open spec fn java_doc(t: Seq<SyntaxNode>, src: Seq<u8>, i: int) -> Option<DocView> {
    match prev_sibling(t, i) {
        None => None,
        Some(prev) => if kind_is(t, prev, "block_comment"@) {
            match node_text(t, prev, src) {
                Some(text) => if starts_with(text, "/**"@) {
                    Some(block_doc(text, DocFormat::JavaDoc))
                } else {
                    None
                },
                None => None,
            }
        } else {
            None
        },
    }
}

pub open spec fn is_annotation_kind(t: Seq<SyntaxNode>, m: int) -> bool {
    kind_is(t, m, "marker_annotation"@) || kind_is(t, m, "annotation"@)
}

/// The annotations among the children of a `modifiers` node `q`, from `d` on.
pub open spec fn java_ann_inner(t: Seq<SyntaxNode>, src: Seq<u8>, q: int, d: int) -> Seq<AnnotationView>
    decreases t.len() - d,
{
    if !(0 <= d < t.len() && d < subtree_end(t, q)) {
        Seq::empty()
    } else {
        proof {
            lemma_subtree_end_bounds(t, d);
        }
        let here = if is_annotation_kind(t, d) && node_text(t, d, src) is Some {
            seq![AnnotationView {
                name: trim_start_matches(node_text(t, d, src).unwrap(), "@"@),
                arguments: Seq::empty(),
                span: node_span(t[d]),
            }]
        } else {
            Seq::empty()
        };
        here + java_ann_inner(t, src, q, subtree_end(t, d))
    }
}

/// The annotations in the `modifiers` children of `p`, from `c` on.
pub open spec fn java_ann_outer(t: Seq<SyntaxNode>, src: Seq<u8>, p: int, c: int) -> Seq<AnnotationView>
    decreases t.len() - c,
{
    if !(0 <= c < t.len() && c < subtree_end(t, p)) {
        Seq::empty()
    } else {
        proof {
            lemma_subtree_end_bounds(t, c);
        }
        let here = if kind_is(t, c, "modifiers"@) {
            java_ann_inner(t, src, c, c + 1)
        } else {
            Seq::empty()
        };
        here + java_ann_outer(t, src, p, subtree_end(t, c))
    }
}

/// The `type_parameter` children of a `type_parameters` node `q`, from `d` on.
pub open spec fn java_tp_inner(t: Seq<SyntaxNode>, src: Seq<u8>, q: int, d: int) -> Seq<Seq<char>>
    decreases t.len() - d,
{
    if !(0 <= d < t.len() && d < subtree_end(t, q)) {
        Seq::empty()
    } else {
        proof {
            lemma_subtree_end_bounds(t, d);
        }
        let here = if kind_is(t, d, "type_parameter"@) && node_text(t, d, src) is Some {
            seq![node_text(t, d, src).unwrap()]
        } else {
            Seq::empty()
        };
        here + java_tp_inner(t, src, q, subtree_end(t, d))
    }
}

/// The type parameters of the `type_parameters` children of `p`, from `c` on.
pub open spec fn java_tp_outer(t: Seq<SyntaxNode>, src: Seq<u8>, p: int, c: int) -> Seq<Seq<char>>
    decreases t.len() - c,
{
    if !(0 <= c < t.len() && c < subtree_end(t, p)) {
        Seq::empty()
    } else {
        proof {
            lemma_subtree_end_bounds(t, c);
        }
        let here = if kind_is(t, c, "type_parameters"@) {
            java_tp_inner(t, src, c, c + 1)
        } else {
            Seq::empty()
        };
        here + java_tp_outer(t, src, p, subtree_end(t, c))
    }
}

/// The symbol kind of a declaration node, if it declares one.
pub open spec fn java_item_kind(t: Seq<SyntaxNode>, i: int) -> Option<SymbolKind> {
    if kind_is(t, i, "class_declaration"@) {
        Some(SymbolKind::Class)
    } else if kind_is(t, i, "interface_declaration"@) {
        Some(SymbolKind::Interface)
    } else if kind_is(t, i, "enum_declaration"@) {
        Some(SymbolKind::Enum)
    } else if kind_is(t, i, "method_declaration"@) {
        Some(SymbolKind::Method)
    } else if kind_is(t, i, "constructor_declaration"@) {
        Some(SymbolKind::Constructor)
    } else if kind_is(t, i, "field_declaration"@) {
        Some(SymbolKind::Field)
    } else {
        None
    }
}

/// Type declarations, whose children are visited with the declared type as parent.
pub open spec fn java_is_scope(k: SymbolKind) -> bool {
    k == SymbolKind::Class || k == SymbolKind::Interface || k == SymbolKind::Enum
}

/// The first `variable_declarator` child of a field declaration `p`, from `c` on.
pub open spec fn java_declarator_from(t: Seq<SyntaxNode>, p: int, c: int) -> Option<int>
    decreases t.len() - c,
{
    if !(0 <= c < t.len() && c < subtree_end(t, p)) {
        None
    } else if kind_is(t, c, "variable_declarator"@) {
        Some(c)
    } else {
        proof {
            lemma_subtree_end_bounds(t, c);
        }
        java_declarator_from(t, p, subtree_end(t, c))
    }
}

/// The symbol a declaration node gives: `Some(None)` without a readable name,
/// `None` where its signature cannot be cut.
pub open spec fn java_item(f: FileInput, i: int, ctx: Option<SymbolIdView>, kind: SymbolKind) -> Option<Option<SymbolView>> {
    let t = f.nodes;
    let src = f.source;
    let vis = java_vis_from(t, src, i, i + 1);
    if kind == SymbolKind::Field {
        match java_declarator_from(t, i, i + 1) {
            None => Some(None),
            Some(d) => match field_text(t, d, src, "name"@) {
                None => Some(None),
                Some(name) => match node_signature(t, i, src, '{') {
                    None => None,
                    Some(sig) => Some(Some(node_symbol(f.path, t[i], kind, qualified_name(f.path, name, "."@, "."@), vis, sig, None, ctx, Seq::empty(), Seq::empty()))),
                },
            },
        }
    } else {
        match field_text(t, i, src, "name"@) {
            None => Some(None),
            Some(name) => {
                let q = qualified_name(f.path, name, "."@, "."@);
                let doc = java_doc(t, src, i);
                let anns = java_ann_outer(t, src, i, i + 1);
                if kind == SymbolKind::Class {
                    Some(Some(node_symbol(f.path, t[i], kind, q, vis, Some("class "@ + name), doc, ctx, anns, java_tp_outer(t, src, i, i + 1))))
                } else if kind == SymbolKind::Interface {
                    Some(Some(node_symbol(f.path, t[i], kind, q, vis, Some("interface "@ + name), doc, ctx, anns, Seq::empty())))
                } else if kind == SymbolKind::Enum {
                    Some(Some(node_symbol(f.path, t[i], kind, q, vis, Some("enum "@ + name), doc, ctx, Seq::empty(), Seq::empty())))
                } else if kind == SymbolKind::Method {
                    match node_signature(t, i, src, '{') {
                        None => None,
                        Some(sig) => Some(Some(node_symbol(f.path, t[i], kind, q, vis, sig, doc, ctx, anns, Seq::empty()))),
                    }
                } else {
                    match node_signature(t, i, src, '{') {
                        None => None,
                        Some(sig) => Some(Some(node_symbol(f.path, t[i], kind, q, vis, sig, doc, ctx, Seq::empty(), Seq::empty()))),
                    }
                }
            },
        }
    }
}

/// The `Import` reference of an import declaration (its whole text), made under a parent symbol.
pub open spec fn java_import_refs(t: Seq<SyntaxNode>, src: Seq<u8>, i: int, ctx: Option<SymbolIdView>) -> Seq<ReferenceView> {
    match (node_text(t, i, src), ctx) {
        (Some(text), Some(p)) => seq![ReferenceView {
            source: p,
            target: ReferenceTargetView::Unresolved(text),
            kind: ReferenceKind::Import,
            span: node_span(t[i]),
        }],
        _ => Seq::empty(),
    }
}

// ---------------------------------------------------------------------------
// The walk
// ---------------------------------------------------------------------------

/// What visiting node `i` under the parent `ctx` collects; `None` where a
/// signature cannot be cut.
pub open spec fn java_visit(f: FileInput, i: int, ctx: Option<SymbolIdView>) -> Option<Collected>
    decreases 2 * (f.nodes.len() - i) + 1,
{
    let t = f.nodes;
    if !(0 <= i < t.len()) {
        Some(nothing())
    } else {
        match java_item_kind(t, i) {
            Some(kind) => match java_item(f, i, ctx, kind) {
                None => None,
                Some(Some(s)) => then(
                    Some(Collected { symbols: seq![s], references: Seq::empty() }),
                    java_children(f, i, i + 1, if java_is_scope(kind) { Some(s.id) } else { ctx }),
                ),
                Some(None) => java_children(f, i, i + 1, ctx),
            },
            None => if kind_is(t, i, "import_declaration"@) {
                then(
                    Some(Collected { symbols: Seq::empty(), references: java_import_refs(t, f.source, i, ctx) }),
                    java_children(f, i, i + 1, ctx),
                )
            } else {
                java_children(f, i, i + 1, ctx)
            },
        }
    }
}

/// What visiting the children of `p`, from `c` on, collects.
pub open spec fn java_children(f: FileInput, p: int, c: int, ctx: Option<SymbolIdView>) -> Option<Collected>
    decreases 2 * (f.nodes.len() - c) + 2,
{
    let t = f.nodes;
    if !(0 <= c < t.len() && c < subtree_end(t, p)) {
        Some(nothing())
    } else {
        proof {
            lemma_subtree_end_bounds(t, c);
        }
        then(java_visit(f, c, ctx), java_children(f, p, subtree_end(t, c), ctx))
    }
}

/// What the Java walk collects from a tree of `source` at `path`: the visit of the root.
pub open spec fn java_walk(source: Seq<u8>, path: Seq<char>) -> spec_fn(Seq<SyntaxNode>) -> Option<Collected> {
    |t: Seq<SyntaxNode>| java_visit(file_input(t, source, path), 0, None)
}

// ---------------------------------------------------------------------------
// Executable extraction
// ---------------------------------------------------------------------------

fn java_visibility(t: &Vec<SyntaxNode>, i: usize, source: &[u8]) -> (r: Visibility)
    requires
        i < t.len(),
    ensures
        r == java_vis_from(t@, source@, i as int, i as int + 1),
{
    let end = find_subtree_end(t, i);
    let w_pub = chars_of("public");
    let w_prot = chars_of("protected");
    let w_priv = chars_of("private");
    let mut c: usize = i + 1;
    while c < end
        invariant
            i < c,
            end as int == subtree_end(t@, i as int),
            end <= t.len(),
            w_pub@ == "public"@,
            w_prot@ == "protected"@,
            w_priv@ == "private"@,
            java_vis_from(t@, source@, i as int, c as int) == java_vis_from(t@, source@, i as int, i as int + 1),
        decreases t.len() - c,
    {
        if kind_is_exec(t, c, "modifiers") {
            let text = text_or_empty_exec(t, c, source);
            if contains_vec(&text, &w_pub) {
                return Visibility::Public;
            } else if contains_vec(&text, &w_prot) {
                return Visibility::Protected;
            } else if contains_vec(&text, &w_priv) {
                return Visibility::Private;
            }
        }
        c = next_child(t, c);
    }
    Visibility::Internal
}

fn java_doc_exec(t: &Vec<SyntaxNode>, i: usize, source: &[u8]) -> (r: Option<Doc>)
    requires
        i < t.len(),
    ensures
        doc_view(r) == java_doc(t@, source@, i as int),
{
    let prev = match find_prev_sibling(t, i) {
        None => return None,
        Some(p) => p,
    };
    if !kind_is_exec(t, prev, "block_comment") {
        return None;
    }
    let text = match node_text_exec(t, prev, source) {
        None => return None,
        Some(x) => chars_of(x.as_str()),
    };
    let open = chars_of("/**");
    if starts_with_vec(&text, &open) {
        Some(block_doc_exec(&text, DocFormat::JavaDoc))
    } else {
        None
    }
}

fn java_annotations(t: &Vec<SyntaxNode>, i: usize, source: &[u8], Ghost(len): Ghost<nat>) -> (r: Vec<Annotation>)
    requires
        i < t.len(),
        placed(t@, len),
    ensures
        annotation_views(r@) == java_ann_outer(t@, source@, i as int, i as int + 1),
{
    let mut out: Vec<Annotation> = Vec::new();
    let at = chars_of("@");
    let end = find_subtree_end(t, i);
    let mut c: usize = i + 1;
    while c < end
        invariant
            i < c,
            end as int == subtree_end(t@, i as int),
            end <= t.len(),
            at@ == "@"@,
            placed(t@, len),
            annotation_views(out@) + java_ann_outer(t@, source@, i as int, c as int) == java_ann_outer(t@, source@, i as int, i as int + 1),
        decreases t.len() - c,
    {
        let ghost before = annotation_views(out@);
        if kind_is_exec(t, c, "modifiers") {
            let qend = find_subtree_end(t, c);
            let mut d: usize = c + 1;
            while d < qend
                invariant
                    c < d,
                    c < t.len(),
                    qend as int == subtree_end(t@, c as int),
                    qend <= t.len(),
                    at@ == "@"@,
                    placed(t@, len),
                    annotation_views(out@) + java_ann_inner(t@, source@, c as int, d as int) == before + java_ann_inner(t@, source@, c as int, c as int + 1),
                decreases t.len() - d,
            {
                let ghost b2 = annotation_views(out@);
                if kind_is_exec(t, d, "marker_annotation") || kind_is_exec(t, d, "annotation") {
                    match node_text_exec(t, d, source) {
                        Some(x) => {
                            let text = chars_of(x.as_str());
                            let name = trim_start_matches_vec(&text, &at);
                            let span = node_span_exec(t, d, Ghost(len));
                            let ann = Annotation { name: string_of(name.as_slice()), arguments: Vec::new(), span };
                            assert(strs(ann.arguments@) =~= Seq::<Seq<char>>::empty());
                            out.push(ann);
                            assert(annotation_views(out@) =~= b2.push(ann@));
                        },
                        None => {},
                    }
                }
                let nd = next_child(t, d);
                assert(annotation_views(out@) + java_ann_inner(t@, source@, c as int, nd as int) =~= b2 + java_ann_inner(t@, source@, c as int, d as int));
                d = nd;
            }
        }
        let nc = next_child(t, c);
        assert(annotation_views(out@) + java_ann_outer(t@, source@, i as int, nc as int) =~= before + java_ann_outer(t@, source@, i as int, c as int));
        c = nc;
    }
    assert(annotation_views(out@) + Seq::<AnnotationView>::empty() =~= annotation_views(out@));
    out
}

fn java_type_params(t: &Vec<SyntaxNode>, i: usize, source: &[u8]) -> (r: Vec<String>)
    requires
        i < t.len(),
    ensures
        strs(r@) == java_tp_outer(t@, source@, i as int, i as int + 1),
{
    let mut out: Vec<String> = Vec::new();
    let end = find_subtree_end(t, i);
    let mut c: usize = i + 1;
    while c < end
        invariant
            i < c,
            end as int == subtree_end(t@, i as int),
            end <= t.len(),
            strs(out@) + java_tp_outer(t@, source@, i as int, c as int) == java_tp_outer(t@, source@, i as int, i as int + 1),
        decreases t.len() - c,
    {
        let ghost before = strs(out@);
        if kind_is_exec(t, c, "type_parameters") {
            let qend = find_subtree_end(t, c);
            let mut d: usize = c + 1;
            while d < qend
                invariant
                    c < d,
                    c < t.len(),
                    qend as int == subtree_end(t@, c as int),
                    qend <= t.len(),
                    strs(out@) + java_tp_inner(t@, source@, c as int, d as int) == before + java_tp_inner(t@, source@, c as int, c as int + 1),
                decreases t.len() - d,
            {
                let ghost b2 = strs(out@);
                if kind_is_exec(t, d, "type_parameter") {
                    match node_text_exec(t, d, source) {
                        Some(x) => {
                            out.push(x);
                            assert(strs(out@) =~= b2.push(x@));
                        },
                        None => {},
                    }
                }
                let nd = next_child(t, d);
                assert(strs(out@) + java_tp_inner(t@, source@, c as int, nd as int) =~= b2 + java_tp_inner(t@, source@, c as int, d as int));
                d = nd;
            }
        }
        let nc = next_child(t, c);
        assert(strs(out@) + java_tp_outer(t@, source@, i as int, nc as int) =~= before + java_tp_outer(t@, source@, i as int, c as int));
        c = nc;
    }
    assert(strs(out@) + Seq::<Seq<char>>::empty() =~= strs(out@));
    out
}

fn java_item_kind_exec(t: &Vec<SyntaxNode>, i: usize) -> (r: Option<SymbolKind>)
    requires
        i < t.len(),
    ensures
        r == java_item_kind(t@, i as int),
{
    if kind_is_exec(t, i, "class_declaration") {
        Some(SymbolKind::Class)
    } else if kind_is_exec(t, i, "interface_declaration") {
        Some(SymbolKind::Interface)
    } else if kind_is_exec(t, i, "enum_declaration") {
        Some(SymbolKind::Enum)
    } else if kind_is_exec(t, i, "method_declaration") {
        Some(SymbolKind::Method)
    } else if kind_is_exec(t, i, "constructor_declaration") {
        Some(SymbolKind::Constructor)
    } else if kind_is_exec(t, i, "field_declaration") {
        Some(SymbolKind::Field)
    } else {
        None
    }
}

fn find_declarator(t: &Vec<SyntaxNode>, p: usize) -> (r: Option<usize>)
    requires
        p < t.len(),
    ensures
        match r {
            Some(d) => java_declarator_from(t@, p as int, p as int + 1) == Some(d as int) && d < t.len(),
            None => java_declarator_from(t@, p as int, p as int + 1) is None,
        },
{
    let end = find_subtree_end(t, p);
    let mut c: usize = p + 1;
    while c < end
        invariant
            p < c,
            end as int == subtree_end(t@, p as int),
            end <= t.len(),
            java_declarator_from(t@, p as int, c as int) == java_declarator_from(t@, p as int, p as int + 1),
        decreases t.len() - c,
    {
        if kind_is_exec(t, c, "variable_declarator") {
            return Some(c);
        }
        c = next_child(t, c);
    }
    None
}

fn labelled(prefix: &str, name: &str) -> (r: String)
    ensures
        r@ == prefix@ + " "@ + name@,
{
    let mut v = chars_of(prefix);
    v.push(' ');
    let n = chars_of(name);
    append_vec(&mut v, &n);
    proof { reveal_strlit(" "); }
    assert(v@ =~= prefix@ + " "@ + name@);
    string_of(v.as_slice())
}

fn java_extract_item(
    t: &Vec<SyntaxNode>,
    i: usize,
    source: &[u8],
    path: &str,
    parent: Option<&SymbolId>,
    kind: SymbolKind,
) -> (r: Option<Option<Symbol>>)
    requires
        i < t.len(),
        placed(t@, source@.len()),
    ensures
        match r {
            None => java_item(file_input(t@, source@, path@), i as int, ref_view(parent), kind) is None,
            Some(None) => java_item(file_input(t@, source@, path@), i as int, ref_view(parent), kind) == Some(None::<SymbolView>),
            Some(Some(s)) => java_item(file_input(t@, source@, path@), i as int, ref_view(parent), kind) == Some(Some(s@)),
        },
{
    let ghost len = source@.len();
    let no_anns: Vec<Annotation> = Vec::new();
    let no_tps: Vec<String> = Vec::new();
    assert(annotation_views(no_anns@) =~= Seq::<AnnotationView>::empty());
    assert(strs(no_tps@) =~= Seq::<Seq<char>>::empty());
    if matches!(kind, SymbolKind::Field) {
        let d = match find_declarator(t, i) {
            None => return Some(None),
            Some(d) => d,
        };
        let name = match field_text_exec(t, d, source, "name") {
            None => return Some(None),
            Some(n) => n,
        };
        let vis = java_visibility(t, i, source);
        let sig = match extract_signature(t, i, source, '{') {
            None => return None,
            Some(s) => s,
        };
        let q = build_qualified_name(path, name.as_str(), ".", ".");
        return Some(Some(make_symbol(path, t, i, Ghost(len), kind, q, vis, sig, None, parent, no_anns, no_tps)));
    }
    let name = match field_text_exec(t, i, source, "name") {
        None => return Some(None),
        Some(n) => n,
    };
    let vis = java_visibility(t, i, source);
    let q = build_qualified_name(path, name.as_str(), ".", ".");
    let doc = java_doc_exec(t, i, source);
    proof {
        reveal_strlit("class ");
        reveal_strlit("interface ");
        reveal_strlit("enum ");
        reveal_strlit("class");
        reveal_strlit("interface");
        reveal_strlit("enum");
        reveal_strlit(" ");
    }
    match kind {
        SymbolKind::Class => {
            let anns = java_annotations(t, i, source, Ghost(len));
            let tps = java_type_params(t, i, source);
            let sig = labelled("class", name.as_str());
            assert(sig@ =~= "class "@ + name@);
            Some(Some(make_symbol(path, t, i, Ghost(len), kind, q, vis, Some(sig), doc, parent, anns, tps)))
        },
        SymbolKind::Interface => {
            let anns = java_annotations(t, i, source, Ghost(len));
            let sig = labelled("interface", name.as_str());
            assert(sig@ =~= "interface "@ + name@);
            Some(Some(make_symbol(path, t, i, Ghost(len), kind, q, vis, Some(sig), doc, parent, anns, no_tps)))
        },
        SymbolKind::Enum => {
            let sig = labelled("enum", name.as_str());
            assert(sig@ =~= "enum "@ + name@);
            Some(Some(make_symbol(path, t, i, Ghost(len), kind, q, vis, Some(sig), doc, parent, no_anns, no_tps)))
        },
        SymbolKind::Method => {
            let anns = java_annotations(t, i, source, Ghost(len));
            let sig = match extract_signature(t, i, source, '{') {
                None => return None,
                Some(s) => s,
            };
            Some(Some(make_symbol(path, t, i, Ghost(len), kind, q, vis, sig, doc, parent, anns, no_tps)))
        },
        _ => {
            let sig = match extract_signature(t, i, source, '{') {
                None => return None,
                Some(s) => s,
            };
            Some(Some(make_symbol(path, t, i, Ghost(len), kind, q, vis, sig, doc, parent, no_anns, no_tps)))
        },
    }
}

// ---------------------------------------------------------------------------
// The executable walk
// ---------------------------------------------------------------------------

fn java_visit_node(
    t: &Vec<SyntaxNode>,
    i: usize,
    source: &[u8],
    path: &str,
    parent: Option<&SymbolId>,
    symbols: &mut Vec<Symbol>,
    references: &mut Vec<Reference>,
) -> (ok: bool)
    requires
        i < t.len(),
        placed(t@, source@.len()),
    ensures
        ok == java_visit(file_input(t@, source@, path@), i as int, ref_view(parent)) is Some,
        ok ==> extends(final(symbols)@, final(references)@, old(symbols)@, old(references)@,
            java_visit(file_input(t@, source@, path@), i as int, ref_view(parent)).unwrap()),
    decreases 2 * (t.len() - i) + 1,
{
    let ghost f = file_input(t@, source@, path@);
    let ghost ctx = ref_view(parent);
    let ghost s0 = old(symbols)@;
    let ghost r0 = old(references)@;
    match java_item_kind_exec(t, i) {
        Some(kind) => {
            match java_extract_item(t, i, source, path, parent, kind) {
                None => false,
                Some(Some(sym)) => {
                    let ghost sv = sym@;
                    proof { lemma_symbol_views_push(symbols@, sym); }
                    if matches!(kind, SymbolKind::Class | SymbolKind::Interface | SymbolKind::Enum) {
                        let id = sym.id.dup();
                        symbols.push(sym);
                        let ok = java_visit_children(t, i, source, path, Some(&id), symbols, references);
                        proof {
                            if ok {
                                let rest = java_children(f, i as int, i as int + 1, Some(sv.id)).unwrap();
                                assert(symbol_views(symbols@) =~= symbol_views(s0) + (seq![sv] + rest.symbols));
                                assert(reference_views(references@) =~= reference_views(r0) + (Seq::<ReferenceView>::empty() + rest.references));
                            }
                        }
                        ok
                    } else {
                        symbols.push(sym);
                        let ok = java_visit_children(t, i, source, path, parent, symbols, references);
                        proof {
                            if ok {
                                let rest = java_children(f, i as int, i as int + 1, ctx).unwrap();
                                assert(symbol_views(symbols@) =~= symbol_views(s0) + (seq![sv] + rest.symbols));
                                assert(reference_views(references@) =~= reference_views(r0) + (Seq::<ReferenceView>::empty() + rest.references));
                            }
                        }
                        ok
                    }
                },
                Some(None) => java_visit_children(t, i, source, path, parent, symbols, references),
            }
        },
        None => {
            if kind_is_exec(t, i, "import_declaration") {
                match (node_text_exec(t, i, source), parent) {
                    (Some(text), Some(p)) => {
                        let span = node_span_exec(t, i, Ghost(source@.len()));
                        let r = Reference { source: p.dup(), target: ReferenceTarget::Unresolved(text), kind: ReferenceKind::Import, span };
                        proof { lemma_reference_views_push(references@, r); }
                        references.push(r);
                    },
                    _ => {},
                }
                let ghost here = java_import_refs(t@, source@, i as int, ctx);
                assert(reference_views(references@) == reference_views(r0) + here);
                let ok = java_visit_children(t, i, source, path, parent, symbols, references);
                proof {
                    if ok {
                        let rest = java_children(f, i as int, i as int + 1, ctx).unwrap();
                        assert(symbol_views(symbols@) =~= symbol_views(s0) + (Seq::<SymbolView>::empty() + rest.symbols));
                        assert(reference_views(references@) =~= reference_views(r0) + (here + rest.references));
                    }
                }
                ok
            } else {
                java_visit_children(t, i, source, path, parent, symbols, references)
            }
        },
    }
}

fn java_visit_children(
    t: &Vec<SyntaxNode>,
    p: usize,
    source: &[u8],
    path: &str,
    parent: Option<&SymbolId>,
    symbols: &mut Vec<Symbol>,
    references: &mut Vec<Reference>,
) -> (ok: bool)
    requires
        p < t.len(),
        placed(t@, source@.len()),
    ensures
        ok == java_children(file_input(t@, source@, path@), p as int, p as int + 1, ref_view(parent)) is Some,
        ok ==> extends(final(symbols)@, final(references)@, old(symbols)@, old(references)@,
            java_children(file_input(t@, source@, path@), p as int, p as int + 1, ref_view(parent)).unwrap()),
    decreases 2 * (t.len() - p),
{
    let ghost f = file_input(t@, source@, path@);
    let ghost ctx = ref_view(parent);
    let ghost s0 = symbols@;
    let ghost r0 = references@;
    let end = find_subtree_end(t, p);
    let mut c: usize = p + 1;
    let ghost mut done = nothing();
    while c < end
        invariant
            p < c,
            p < t.len(),
            end as int == subtree_end(t@, p as int),
            end <= t.len(),
            placed(t@, source@.len()),
            f == file_input(t@, source@, path@),
            ctx == ref_view(parent),
            then(Some(done), java_children(f, p as int, c as int, ctx)) == java_children(f, p as int, p as int + 1, ctx),
            extends(symbols@, references@, s0, r0, done),
        decreases t.len() - c,
    {
        let e = next_child(t, c);
        let ok = java_visit_node(t, c, source, path, parent, symbols, references);
        if !ok {
            return false;
        }
        proof {
            let v = java_visit(f, c as int, ctx).unwrap();
            let rest = java_children(f, p as int, e as int, ctx);
            assert(java_children(f, p as int, c as int, ctx) == then(Some(v), rest));
            let od = done;
            done = Collected { symbols: od.symbols + v.symbols, references: od.references + v.references };
            assert(symbol_views(symbols@) =~= symbol_views(s0) + done.symbols);
            assert(reference_views(references@) =~= reference_views(r0) + done.references);
            match rest {
                Some(x) => {
                    assert(od.symbols + (v.symbols + x.symbols) =~= done.symbols + x.symbols);
                    assert(od.references + (v.references + x.references) =~= done.references + x.references);
                },
                None => {},
            }
        }
        c = e;
    }
    proof {
        assert(java_children(f, p as int, c as int, ctx) == Some(nothing()));
        assert(done.symbols + Seq::<SymbolView>::empty() =~= done.symbols);
        assert(done.references + Seq::<ReferenceView>::empty() =~= done.references);
    }
    true
}

impl JavaParser {
    pub closed spec fn new_spec() -> Self {
        JavaParser { _private: () }
    }

    pub fn new() -> (r: Self)
        ensures
            r == Self::new_spec(),
    {
        JavaParser { _private: () }
    }

    pub fn language(&self) -> (r: Language)
        ensures
            r == Language::Java,
    {
        Language::Java
    }

    /// Parses a Java file: its types, methods, constructors and fields with
    /// modifiers, annotations and JavaDoc, and its imports.
    pub fn parse(&self, source: &[u8], file_path: &str) -> (r: WikiGenResult<ParseOutput>)
        requires
            walk_finishes(Grammar::Java, source@, java_walk(source@, file_path@)),
        ensures
            parse_result_ok(r, Grammar::Java, "Java"@, Language::Java, source@, file_path@, java_walk(source@, file_path@)),
    {
        match self.parse_checked(source, file_path) {
            Some(r) => r,
            None => {
                assert(false);
                Err(WikiGenError::Parse { file: file_path.to_owned(), message: String::new() })
            },
        }
    }

    /// [`JavaParser::parse`], or `None` where a signature would have to be cut
    /// inside a character.
    pub fn parse_checked(&self, source: &[u8], file_path: &str) -> (r: Option<WikiGenResult<ParseOutput>>)
        ensures
            match r {
                None => !walk_finishes(Grammar::Java, source@, java_walk(source@, file_path@)),
                Some(x) => walk_finishes(Grammar::Java, source@, java_walk(source@, file_path@))
                    && parse_result_ok(x, Grammar::Java, "Java"@, Language::Java, source@, file_path@, java_walk(source@, file_path@)),
            },
    {
        match parse_syntax(Grammar::Java, source) {
            Err(e) => Some(Err(tree_error(e, "Java", file_path))),
            Ok(t) => {
                let mut symbols: Vec<Symbol> = Vec::new();
                let mut references: Vec<Reference> = Vec::new();
                let ok = if t.len() > 0 {
                    java_visit_node(&t, 0, source, file_path, None, &mut symbols, &mut references)
                } else {
                    true
                };
                if !ok {
                    return None;
                }
                let file = file_record(&t, source, file_path, Language::Java);
                let ghost c = java_visit(file_input(t@, source@, file_path@), 0, None).unwrap();
                assert(symbol_views(symbols@) =~= c.symbols);
                assert(reference_views(references@) =~= c.references);
                Some(Ok(ParseOutput { file, symbols, references, diagnostics: Vec::new() }))
            },
        }
    }
}


// ---------------------------------------------------------------------------
// Laws
// ---------------------------------------------------------------------------

/// The symbol of a named Java type, method or constructor declaration is the
/// first thing a visit of its node collects, and its kind is the one the
/// node's grammar kind names: `class_declaration` a class,
/// `interface_declaration` an interface, `enum_declaration` an enum,
/// `method_declaration` a method, `constructor_declaration` a constructor.
/// A field declaration with a named declarator gives a field.
pub proof fn law_java_declaration_kind(f: FileInput, i: int, ctx: Option<SymbolIdView>)
    requires
        0 <= i < f.nodes.len(),
        java_visit(f, i, ctx) is Some,
    ensures
        ({
            let c = java_visit(f, i, ctx)->0;
            let k = f.nodes[i].kind@;
            &&& field_text(f.nodes, i, f.source, "name"@) is Some ==> {
            &&& k == "class_declaration"@ ==> c.symbols.len() > 0 && c.symbols[0].kind == SymbolKind::Class
            &&& k == "interface_declaration"@ ==> c.symbols.len() > 0 && c.symbols[0].kind == SymbolKind::Interface
            &&& k == "enum_declaration"@ ==> c.symbols.len() > 0 && c.symbols[0].kind == SymbolKind::Enum
            &&& k == "method_declaration"@ ==> c.symbols.len() > 0 && c.symbols[0].kind == SymbolKind::Method
            &&& k == "constructor_declaration"@ ==> c.symbols.len() > 0 && c.symbols[0].kind == SymbolKind::Constructor
            }
            &&& (k == "field_declaration"@ && java_declarator_from(f.nodes, i, i + 1) is Some && field_text(
                f.nodes,
                java_declarator_from(f.nodes, i, i + 1)->0,
                f.source,
                "name"@,
            ) is Some) ==> c.symbols.len() > 0 && c.symbols[0].kind == SymbolKind::Field
        }),
{
    reveal_strlit("class_declaration");
    assert("class_declaration"@.len() == 17);
    reveal_strlit("interface_declaration");
    assert("interface_declaration"@.len() == 21);
    reveal_strlit("enum_declaration");
    assert("enum_declaration"@.len() == 16);
    reveal_strlit("method_declaration");
    assert("method_declaration"@.len() == 18);
    reveal_strlit("constructor_declaration");
    assert("constructor_declaration"@.len() == 23);
    reveal_strlit("field_declaration");
    assert("field_declaration"@.len() == 17);
    assert("class_declaration"@ != "field_declaration"@) by {
        assert("class_declaration"@[0] != "field_declaration"@[0]);
    }
    let t = f.nodes;
    let k = t[i].kind@;
    if k == "class_declaration"@ {
        assert(java_item_kind(t, i) == Some(SymbolKind::Class));
    }
    if k == "interface_declaration"@ {
        assert(!kind_is(t, i, "class_declaration"@));
        assert(java_item_kind(t, i) == Some(SymbolKind::Interface));
    }
    if k == "enum_declaration"@ {
        assert(!kind_is(t, i, "class_declaration"@));
        assert(!kind_is(t, i, "interface_declaration"@));
        assert(java_item_kind(t, i) == Some(SymbolKind::Enum));
    }
    if k == "method_declaration"@ {
        assert(!kind_is(t, i, "class_declaration"@));
        assert(!kind_is(t, i, "interface_declaration"@));
        assert(!kind_is(t, i, "enum_declaration"@));
        assert(java_item_kind(t, i) == Some(SymbolKind::Method));
    }
    if k == "constructor_declaration"@ {
        assert(!kind_is(t, i, "class_declaration"@));
        assert(!kind_is(t, i, "interface_declaration"@));
        assert(!kind_is(t, i, "enum_declaration"@));
        assert(!kind_is(t, i, "method_declaration"@));
        assert(java_item_kind(t, i) == Some(SymbolKind::Constructor));
    }
    if k == "field_declaration"@ {
        assert(!kind_is(t, i, "class_declaration"@));
        assert(!kind_is(t, i, "interface_declaration"@));
        assert(!kind_is(t, i, "enum_declaration"@));
        assert(!kind_is(t, i, "method_declaration"@));
        assert(!kind_is(t, i, "constructor_declaration"@));
        assert(java_item_kind(t, i) == Some(SymbolKind::Field));
    }
    if java_item_kind(t, i) is Some && java_item(f, i, ctx, java_item_kind(t, i)->0) matches Some(Some(_)) {
        let kind = java_item_kind(t, i)->0;
        let sym = java_item(f, i, ctx, kind)->0->0;
        assert(sym.kind == kind);
        let c = java_visit(f, i, ctx)->0;
        assert(c.symbols[0] == sym);
    }
}

} // verus!
