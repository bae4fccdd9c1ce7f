//! The TypeScript parser: functions, classes, interfaces, enums, type
//! aliases, methods and exported constants with their JSDoc, and imports.

use vstd::prelude::*;

use crate::error::{WikiGenError, WikiGenResult};
use crate::ir::{
    annotation_views, doc_view, lemma_reference_views_push, lemma_symbol_views_push, opt_str,
    reference_views, strs, symbol_views, Annotation, AnnotationView, Diagnostic, Doc, DocFormat,
    DocView, Language, Reference, ReferenceKind, ReferenceTarget, ReferenceTargetView,
    ReferenceView, Span, Symbol, SymbolId, SymbolIdView, SymbolKind, SymbolView, Visibility,
};
use crate::parser::extract::{
    block_doc, block_doc_exec, build_qualified_name, extends, extract_signature, field_text,
    field_text_exec, file_input, make_symbol, next_child, node_signature, node_symbol, nothing,
    qualified_name, ref_view, then, Collected, FileInput,
};
use crate::parser::syntax::{
    find_parent, find_prev_sibling, find_subtree_end, kind_is, kind_is_exec,
    lemma_subtree_end_bounds, node_span, node_span_exec, node_text, node_text_exec, parent,
    parse_syntax, placed, prev_sibling, subtree_end, syntax_tree, tree_ok, Grammar, SyntaxError, SyntaxNode,
};
use crate::parser::{file_record, parse_result_ok, tree_error, tree_error_ok, walk_finishes, ParseOutput};
use crate::text::{append_vec, chars_of, starts_with, starts_with_vec, string_of};

verus! {

/// Parses TypeScript (and JavaScript) source files.
pub struct TypeScriptParser {
    _private: (),
}

// ---------------------------------------------------------------------------
// What one node gives
// ---------------------------------------------------------------------------

/// Whether a declaration stands directly in an `export` statement.
pub open spec fn ts_exported(t: Seq<SyntaxNode>, i: int) -> bool {
    parent(t, i) matches Some(p) && kind_is(t, p, "export_statement"@)
}

pub open spec fn ts_vis(t: Seq<SyntaxNode>, i: int) -> Visibility {
    if ts_exported(t, i) {
        Visibility::Public
    } else {
        Visibility::Private
    }
}

/// The JSDoc of a declaration: a `/** */` comment just before it, or just
/// before the `export` statement around it.
pub open spec fn ts_doc(t: Seq<SyntaxNode>, src: Seq<u8>, i: int) -> Option<DocView> {
    let check = if ts_exported(t, i) { parent(t, i).unwrap() } else { i };
    match prev_sibling(t, check) {
        None => None,
        Some(prev) => if kind_is(t, prev, "comment"@) {
            match node_text(t, prev, src) {
                Some(text) => if starts_with(text, "/**"@) {
                    Some(block_doc(text, DocFormat::JSDoc))
                } else {
                    None
                },
                None => None,
            }
        } else {
            None
        },
    }
}

/// The symbol kind of a declaration node, if it declares one.
pub open spec fn ts_item_kind(t: Seq<SyntaxNode>, i: int) -> Option<SymbolKind> {
    if kind_is(t, i, "function_declaration"@) {
        Some(SymbolKind::Function)
    } else if kind_is(t, i, "class_declaration"@) {
        Some(SymbolKind::Class)
    } else if kind_is(t, i, "interface_declaration"@) {
        Some(SymbolKind::Interface)
    } else if kind_is(t, i, "type_alias_declaration"@) {
        Some(SymbolKind::TypeAlias)
    } else if kind_is(t, i, "enum_declaration"@) {
        Some(SymbolKind::Enum)
    } else if kind_is(t, i, "method_definition"@) {
        Some(SymbolKind::Method)
    } else {
        None
    }
}

/// Declarations whose children are visited with the declared symbol as parent.
pub open spec fn ts_is_scope(k: SymbolKind) -> bool {
    k == SymbolKind::Function || k == SymbolKind::Class || k == SymbolKind::Interface || k == SymbolKind::Enum
}

pub open spec fn ts_qname(path: Seq<char>, name: Seq<char>) -> Seq<char> {
    qualified_name(path, name, "/"@, ":"@)
}

/// The symbol a declaration node gives: `Some(None)` without a readable name,
/// `None` where its signature cannot be cut.
pub open spec fn ts_item(f: FileInput, i: int, ctx: Option<SymbolIdView>, kind: SymbolKind) -> Option<Option<SymbolView>> {
    let t = f.nodes;
    let src = f.source;
    match field_text(t, i, src, "name"@) {
        None => Some(None),
        Some(name) => {
            let q = ts_qname(f.path, name);
            let doc = ts_doc(t, src, i);
            let vis = if kind == SymbolKind::Method { Visibility::Public } else { ts_vis(t, i) };
            if kind == SymbolKind::Class {
                Some(Some(node_symbol(f.path, t[i], kind, q, vis, Some("class "@ + name), doc, ctx, Seq::empty(), Seq::empty())))
            } else if kind == SymbolKind::Interface {
                Some(Some(node_symbol(f.path, t[i], kind, q, vis, Some("interface "@ + name), doc, ctx, Seq::empty(), Seq::empty())))
            } else if kind == SymbolKind::Enum {
                Some(Some(node_symbol(f.path, t[i], kind, q, vis, Some("enum "@ + name), doc, ctx, Seq::empty(), Seq::empty())))
            } else {
                match node_signature(t, i, src, '{') {
                    None => None,
                    Some(sig) => Some(Some(node_symbol(f.path, t[i], kind, q, vis, sig, doc, ctx, Seq::empty(), Seq::empty()))),
                }
            }
        },
    }
}

/// The constants an exported declaration `p` declares, one per named
/// declarator among its children from `c` on; each carries the whole
/// declaration's range, signature and JSDoc.
pub open spec fn ts_consts_from(f: FileInput, p: int, c: int, ctx: Option<SymbolIdView>) -> Option<Seq<SymbolView>>
    decreases f.nodes.len() - c,
{
    let t = f.nodes;
    let src = f.source;
    if !(0 <= c < t.len() && c < subtree_end(t, p)) {
        Some(Seq::empty())
    } else {
        proof {
            lemma_subtree_end_bounds(t, c);
        }
        let rest = ts_consts_from(f, p, subtree_end(t, c), ctx);
        if kind_is(t, c, "variable_declarator"@) && field_text(t, c, src, "name"@) is Some {
            match (node_signature(t, p, src, '{'), rest) {
                (Some(sig), Some(r)) => Some(seq![node_symbol(
                    f.path,
                    t[p],
                    SymbolKind::Constant,
                    ts_qname(f.path, field_text(t, c, src, "name"@).unwrap()),
                    Visibility::Public,
                    sig,
                    ts_doc(t, src, p),
                    ctx,
                    Seq::empty(),
                    Seq::empty(),
                )] + r),
                _ => None,
            }
        } else {
            rest
        }
    }
}

/// The constants of a declaration, when it is exported.
pub open spec fn ts_consts(f: FileInput, i: int, ctx: Option<SymbolIdView>) -> Option<Seq<SymbolView>> {
    if ts_exported(f.nodes, i) {
        ts_consts_from(f, i, i + 1, ctx)
    } else {
        Some(Seq::empty())
    }
}

/// The `Import` reference of an import statement (its whole text), made under a parent symbol.
pub open spec fn ts_import_refs(t: Seq<SyntaxNode>, src: Seq<u8>, i: int, ctx: Option<SymbolIdView>) -> Seq<ReferenceView> {
    match (node_text(t, i, src), ctx) {
        (Some(text), Some(p)) => seq![ReferenceView {
            source: p,
            target: ReferenceTargetView::Unresolved(text),
            kind: ReferenceKind::Import,
            span: node_span(t[i]),
        }],
        _ => Seq::empty(),
    }
}

// ---------------------------------------------------------------------------
// The walk
// ---------------------------------------------------------------------------

/// What visiting node `i` under the parent `ctx` collects; `None` where a
/// signature cannot be cut.
pub open spec fn ts_visit(f: FileInput, i: int, ctx: Option<SymbolIdView>) -> Option<Collected>
    decreases 2 * (f.nodes.len() - i) + 1,
{
    let t = f.nodes;
    if !(0 <= i < t.len()) {
        Some(nothing())
    } else {
        match ts_item_kind(t, i) {
            Some(kind) => match ts_item(f, i, ctx, kind) {
                None => None,
                Some(Some(s)) => then(
                    Some(Collected { symbols: seq![s], references: Seq::empty() }),
                    ts_children(f, i, i + 1, if ts_is_scope(kind) { Some(s.id) } else { ctx }),
                ),
                Some(None) => ts_children(f, i, i + 1, ctx),
            },
            None => if kind_is(t, i, "lexical_declaration"@) || kind_is(t, i, "variable_declaration"@) {
                match ts_consts(f, i, ctx) {
                    None => None,
                    Some(cs) => then(Some(Collected { symbols: cs, references: Seq::empty() }), ts_children(f, i, i + 1, ctx)),
                }
            } else if kind_is(t, i, "import_statement"@) {
                then(
                    Some(Collected { symbols: Seq::empty(), references: ts_import_refs(t, f.source, i, ctx) }),
                    ts_children(f, i, i + 1, ctx),
                )
            } else {
                ts_children(f, i, i + 1, ctx)
            },
        }
    }
}

/// What visiting the children of `p`, from `c` on, collects.
pub open spec fn ts_children(f: FileInput, p: int, c: int, ctx: Option<SymbolIdView>) -> Option<Collected>
    decreases 2 * (f.nodes.len() - c) + 2,
{
    let t = f.nodes;
    if !(0 <= c < t.len() && c < subtree_end(t, p)) {
        Some(nothing())
    } else {
        proof {
            lemma_subtree_end_bounds(t, c);
        }
        then(ts_visit(f, c, ctx), ts_children(f, p, subtree_end(t, c), ctx))
    }
}

/// What the TypeScript walk collects from a tree of `source` at `path`: the visit of the root.
pub open spec fn ts_walk(source: Seq<u8>, path: Seq<char>) -> spec_fn(Seq<SyntaxNode>) -> Option<Collected> {
    |t: Seq<SyntaxNode>| ts_visit(file_input(t, source, path), 0, None)
}

// ---------------------------------------------------------------------------
// Executable extraction
// ---------------------------------------------------------------------------

fn ts_exported_exec(t: &Vec<SyntaxNode>, i: usize) -> (r: Option<usize>)
    requires
        i < t.len(),
    ensures
        match r {
            Some(p) => ts_exported(t@, i as int) && parent(t@, i as int) == Some(p as int) && p < t.len(),
            None => !ts_exported(t@, i as int),
        },
{
    match find_parent(t, i) {
        Some(p) => if kind_is_exec(t, p, "export_statement") {
            Some(p)
        } else {
            None
        },
        None => None,
    }
}

fn ts_doc_exec(t: &Vec<SyntaxNode>, i: usize, source: &[u8]) -> (r: Option<Doc>)
    requires
        i < t.len(),
    ensures
        doc_view(r) == ts_doc(t@, source@, i as int),
{
    let check = match ts_exported_exec(t, i) {
        Some(p) => p,
        None => i,
    };
    let prev = match find_prev_sibling(t, check) {
        None => return None,
        Some(p) => p,
    };
    if !kind_is_exec(t, prev, "comment") {
        return None;
    }
    let text = match node_text_exec(t, prev, source) {
        None => return None,
        Some(x) => chars_of(x.as_str()),
    };
    let open = chars_of("/**");
    if starts_with_vec(&text, &open) {
        Some(block_doc_exec(&text, DocFormat::JSDoc))
    } else {
        None
    }
}

fn ts_item_kind_exec(t: &Vec<SyntaxNode>, i: usize) -> (r: Option<SymbolKind>)
    requires
        i < t.len(),
    ensures
        r == ts_item_kind(t@, i as int),
{
    if kind_is_exec(t, i, "function_declaration") {
        Some(SymbolKind::Function)
    } else if kind_is_exec(t, i, "class_declaration") {
        Some(SymbolKind::Class)
    } else if kind_is_exec(t, i, "interface_declaration") {
        Some(SymbolKind::Interface)
    } else if kind_is_exec(t, i, "type_alias_declaration") {
        Some(SymbolKind::TypeAlias)
    } else if kind_is_exec(t, i, "enum_declaration") {
        Some(SymbolKind::Enum)
    } else if kind_is_exec(t, i, "method_definition") {
        Some(SymbolKind::Method)
    } else {
        None
    }
}

fn labelled(prefix: &str, name: &str) -> (r: String)
    ensures
        r@ == prefix@ + " "@ + name@,
{
    let mut v = chars_of(prefix);
    v.push(' ');
    let n = chars_of(name);
    append_vec(&mut v, &n);
    proof { reveal_strlit(" "); }
    assert(v@ =~= prefix@ + " "@ + name@);
    string_of(v.as_slice())
}

fn ts_extract_item(
    t: &Vec<SyntaxNode>,
    i: usize,
    source: &[u8],
    path: &str,
    parent: Option<&SymbolId>,
    kind: SymbolKind,
) -> (r: Option<Option<Symbol>>)
    requires
        i < t.len(),
        placed(t@, source@.len()),
    ensures
        match r {
            None => ts_item(file_input(t@, source@, path@), i as int, ref_view(parent), kind) is None,
            Some(None) => ts_item(file_input(t@, source@, path@), i as int, ref_view(parent), kind) == Some(None::<SymbolView>),
            Some(Some(s)) => ts_item(file_input(t@, source@, path@), i as int, ref_view(parent), kind) == Some(Some(s@)),
        },
{
    let ghost len = source@.len();
    let no_anns: Vec<Annotation> = Vec::new();
    let no_tps: Vec<String> = Vec::new();
    assert(annotation_views(no_anns@) =~= Seq::<AnnotationView>::empty());
    assert(strs(no_tps@) =~= Seq::<Seq<char>>::empty());
    let name = match field_text_exec(t, i, source, "name") {
        None => return Some(None),
        Some(n) => n,
    };
    let q = build_qualified_name(path, name.as_str(), "/", ":");
    let doc = ts_doc_exec(t, i, source);
    let vis = if matches!(kind, SymbolKind::Method) {
        Visibility::Public
    } else if ts_exported_exec(t, i).is_some() {
        Visibility::Public
    } else {
        Visibility::Private
    };
    proof {
        reveal_strlit("class ");
        reveal_strlit("interface ");
        reveal_strlit("enum ");
        reveal_strlit("class");
        reveal_strlit("interface");
        reveal_strlit("enum");
        reveal_strlit(" ");
    }
    match kind {
        SymbolKind::Class => {
            let sig = labelled("class", name.as_str());
            assert(sig@ =~= "class "@ + name@);
            Some(Some(make_symbol(path, t, i, Ghost(len), kind, q, vis, Some(sig), doc, parent, no_anns, no_tps)))
        },
        SymbolKind::Interface => {
            let sig = labelled("interface", name.as_str());
            assert(sig@ =~= "interface "@ + name@);
            Some(Some(make_symbol(path, t, i, Ghost(len), kind, q, vis, Some(sig), doc, parent, no_anns, no_tps)))
        },
        SymbolKind::Enum => {
            let sig = labelled("enum", name.as_str());
            assert(sig@ =~= "enum "@ + name@);
            Some(Some(make_symbol(path, t, i, Ghost(len), kind, q, vis, Some(sig), doc, parent, no_anns, no_tps)))
        },
        _ => {
            let sig = match extract_signature(t, i, source, '{') {
                None => return None,
                Some(s) => s,
            };
            Some(Some(make_symbol(path, t, i, Ghost(len), kind, q, vis, sig, doc, parent, no_anns, no_tps)))
        },
    }
}

fn ts_consts_exec(
    t: &Vec<SyntaxNode>,
    i: usize,
    source: &[u8],
    path: &str,
    parent: Option<&SymbolId>,
    symbols: &mut Vec<Symbol>,
) -> (ok: bool)
    requires
        i < t.len(),
        placed(t@, source@.len()),
    ensures
        ok == ts_consts(file_input(t@, source@, path@), i as int, ref_view(parent)) is Some,
        ok ==> symbol_views(final(symbols)@) == symbol_views(old(symbols)@)
            + ts_consts(file_input(t@, source@, path@), i as int, ref_view(parent)).unwrap(),
{
    let ghost f = file_input(t@, source@, path@);
    let ghost ctx = ref_view(parent);
    let ghost s0 = symbol_views(symbols@);
    if ts_exported_exec(t, i).is_none() {
        assert(symbol_views(symbols@) =~= s0 + Seq::<SymbolView>::empty());
        return true;
    }
    let ghost len = source@.len();
    let end = find_subtree_end(t, i);
    let mut c: usize = i + 1;
    while c < end
        invariant
            i < c,
            i < t.len(),
            end as int == subtree_end(t@, i as int),
            end <= t.len(),
            placed(t@, source@.len()),
            len == source@.len(),
            f == file_input(t@, source@, path@),
            ctx == ref_view(parent),
            ts_exported(t@, i as int),
            s0.len() <= symbol_views(symbols@).len(),
            symbol_views(symbols@).subrange(0, s0.len() as int) == s0,
            match ts_consts_from(f, i as int, c as int, ctx) {
                Some(rest) => ts_consts_from(f, i as int, i as int + 1, ctx)
                    == Some(symbol_views(symbols@).subrange(s0.len() as int, symbol_views(symbols@).len() as int) + rest),
                None => ts_consts_from(f, i as int, i as int + 1, ctx) is None,
            },
        decreases t.len() - c,
    {
        let ghost before = symbol_views(symbols@);
        let e = next_child(t, c);
        if kind_is_exec(t, c, "variable_declarator") {
            match field_text_exec(t, c, source, "name") {
                Some(name) => {
                    let sig = match extract_signature(t, i, source, '{') {
                        None => {
                            assert(ts_consts_from(f, i as int, c as int, ctx) is None);
                            return false;
                        },
                        Some(s) => s,
                    };
                    let q = build_qualified_name(path, name.as_str(), "/", ":");
                    let doc = ts_doc_exec(t, i, source);
                    let no_anns: Vec<Annotation> = Vec::new();
                    let no_tps: Vec<String> = Vec::new();
                    assert(annotation_views(no_anns@) =~= Seq::<AnnotationView>::empty());
                    assert(strs(no_tps@) =~= Seq::<Seq<char>>::empty());
                    let sym = make_symbol(path, t, i, Ghost(len), SymbolKind::Constant, q, Visibility::Public, sig, doc, parent, no_anns, no_tps);
                    proof { lemma_symbol_views_push(symbols@, sym); }
                    symbols.push(sym);
                    assert(symbol_views(symbols@).subrange(s0.len() as int, symbol_views(symbols@).len() as int)
                        =~= before.subrange(s0.len() as int, before.len() as int).push(sym@));
                    assert(symbol_views(symbols@).subrange(0, s0.len() as int) =~= before.subrange(0, s0.len() as int));
                    proof {
                        match ts_consts_from(f, i as int, e as int, ctx) {
                            Some(r) => {
                                assert(before.subrange(s0.len() as int, before.len() as int) + (seq![sym@] + r)
                                    =~= before.subrange(s0.len() as int, before.len() as int).push(sym@) + r);
                            },
                            None => {},
                        }
                    }
                },
                None => {},
            }
        }
        c = e;
    }
    assert(symbol_views(symbols@) =~= s0 + symbol_views(symbols@).subrange(s0.len() as int, symbol_views(symbols@).len() as int));
    assert(symbol_views(symbols@).subrange(s0.len() as int, symbol_views(symbols@).len() as int) + Seq::<SymbolView>::empty()
        =~= symbol_views(symbols@).subrange(s0.len() as int, symbol_views(symbols@).len() as int));
    true
}

// ---------------------------------------------------------------------------
// The executable walk
// ---------------------------------------------------------------------------

fn ts_visit_node(
    t: &Vec<SyntaxNode>,
    i: usize,
    source: &[u8],
    path: &str,
    parent: Option<&SymbolId>,
    symbols: &mut Vec<Symbol>,
    references: &mut Vec<Reference>,
) -> (ok: bool)
    requires
        i < t.len(),
        placed(t@, source@.len()),
    ensures
        ok == ts_visit(file_input(t@, source@, path@), i as int, ref_view(parent)) is Some,
        ok ==> extends(final(symbols)@, final(references)@, old(symbols)@, old(references)@,
            ts_visit(file_input(t@, source@, path@), i as int, ref_view(parent)).unwrap()),
    decreases 2 * (t.len() - i) + 1,
{
    let ghost f = file_input(t@, source@, path@);
    let ghost ctx = ref_view(parent);
    let ghost s0 = old(symbols)@;
    let ghost r0 = old(references)@;
    match ts_item_kind_exec(t, i) {
        Some(kind) => {
            match ts_extract_item(t, i, source, path, parent, kind) {
                None => false,
                Some(Some(sym)) => {
                    let ghost sv = sym@;
                    proof { lemma_symbol_views_push(symbols@, sym); }
                    if matches!(kind, SymbolKind::Function | SymbolKind::Class | SymbolKind::Interface | SymbolKind::Enum) {
                        let id = sym.id.dup();
                        symbols.push(sym);
                        let ok = ts_visit_children(t, i, source, path, Some(&id), symbols, references);
                        proof {
                            if ok {
                                let rest = ts_children(f, i as int, i as int + 1, Some(sv.id)).unwrap();
                                assert(symbol_views(symbols@) =~= symbol_views(s0) + (seq![sv] + rest.symbols));
                                assert(reference_views(references@) =~= reference_views(r0) + (Seq::<ReferenceView>::empty() + rest.references));
                            }
                        }
                        ok
                    } else {
                        symbols.push(sym);
                        let ok = ts_visit_children(t, i, source, path, parent, symbols, references);
                        proof {
                            if ok {
                                let rest = ts_children(f, i as int, i as int + 1, ctx).unwrap();
                                assert(symbol_views(symbols@) =~= symbol_views(s0) + (seq![sv] + rest.symbols));
                                assert(reference_views(references@) =~= reference_views(r0) + (Seq::<ReferenceView>::empty() + rest.references));
                            }
                        }
                        ok
                    }
                },
                Some(None) => ts_visit_children(t, i, source, path, parent, symbols, references),
            }
        },
        None => {
            if kind_is_exec(t, i, "lexical_declaration") || kind_is_exec(t, i, "variable_declaration") {
                let ok = ts_consts_exec(t, i, source, path, parent, symbols);
                if !ok {
                    return false;
                }
                let ghost cs = ts_consts(f, i as int, ctx).unwrap();
                let ok2 = ts_visit_children(t, i, source, path, parent, symbols, references);
                proof {
                    if ok2 {
                        let rest = ts_children(f, i as int, i as int + 1, ctx).unwrap();
                        assert(symbol_views(symbols@) =~= symbol_views(s0) + (cs + rest.symbols));
                        assert(reference_views(references@) =~= reference_views(r0) + (Seq::<ReferenceView>::empty() + rest.references));
                    }
                }
                ok2
            } else if kind_is_exec(t, i, "import_statement") {
                match (node_text_exec(t, i, source), parent) {
                    (Some(text), Some(p)) => {
                        let span = node_span_exec(t, i, Ghost(source@.len()));
                        let r = Reference { source: p.dup(), target: ReferenceTarget::Unresolved(text), kind: ReferenceKind::Import, span };
                        proof { lemma_reference_views_push(references@, r); }
                        references.push(r);
                    },
                    _ => {},
                }
                let ghost here = ts_import_refs(t@, source@, i as int, ctx);
                assert(reference_views(references@) == reference_views(r0) + here);
                let ok = ts_visit_children(t, i, source, path, parent, symbols, references);
                proof {
                    if ok {
                        let rest = ts_children(f, i as int, i as int + 1, ctx).unwrap();
                        assert(symbol_views(symbols@) =~= symbol_views(s0) + (Seq::<SymbolView>::empty() + rest.symbols));
                        assert(reference_views(references@) =~= reference_views(r0) + (here + rest.references));
                    }
                }
                ok
            } else {
                ts_visit_children(t, i, source, path, parent, symbols, references)
            }
        },
    }
}

fn ts_visit_children(
    t: &Vec<SyntaxNode>,
    p: usize,
    source: &[u8],
    path: &str,
    parent: Option<&SymbolId>,
    symbols: &mut Vec<Symbol>,
    references: &mut Vec<Reference>,
) -> (ok: bool)
    requires
        p < t.len(),
        placed(t@, source@.len()),
    ensures
        ok == ts_children(file_input(t@, source@, path@), p as int, p as int + 1, ref_view(parent)) is Some,
        ok ==> extends(final(symbols)@, final(references)@, old(symbols)@, old(references)@,
            ts_children(file_input(t@, source@, path@), p as int, p as int + 1, ref_view(parent)).unwrap()),
    decreases 2 * (t.len() - p),
{
    let ghost f = file_input(t@, source@, path@);
    let ghost ctx = ref_view(parent);
    let ghost s0 = symbols@;
    let ghost r0 = references@;
    let end = find_subtree_end(t, p);
    let mut c: usize = p + 1;
    let ghost mut done = nothing();
    while c < end
        invariant
            p < c,
            p < t.len(),
            end as int == subtree_end(t@, p as int),
            end <= t.len(),
            placed(t@, source@.len()),
            f == file_input(t@, source@, path@),
            ctx == ref_view(parent),
            then(Some(done), ts_children(f, p as int, c as int, ctx)) == ts_children(f, p as int, p as int + 1, ctx),
            extends(symbols@, references@, s0, r0, done),
        decreases t.len() - c,
    {
        let e = next_child(t, c);
        let ok = ts_visit_node(t, c, source, path, parent, symbols, references);
        if !ok {
            return false;
        }
        proof {
            let v = ts_visit(f, c as int, ctx).unwrap();
            let rest = ts_children(f, p as int, e as int, ctx);
            assert(ts_children(f, p as int, c as int, ctx) == then(Some(v), rest));
            let od = done;
            done = Collected { symbols: od.symbols + v.symbols, references: od.references + v.references };
            assert(symbol_views(symbols@) =~= symbol_views(s0) + done.symbols);
            assert(reference_views(references@) =~= reference_views(r0) + done.references);
            match rest {
                Some(x) => {
                    assert(od.symbols + (v.symbols + x.symbols) =~= done.symbols + x.symbols);
                    assert(od.references + (v.references + x.references) =~= done.references + x.references);
                },
                None => {},
            }
        }
        c = e;
    }
    proof {
        assert(ts_children(f, p as int, c as int, ctx) == Some(nothing()));
        assert(done.symbols + Seq::<SymbolView>::empty() =~= done.symbols);
        assert(done.references + Seq::<ReferenceView>::empty() =~= done.references);
    }
    true
}

impl TypeScriptParser {
    pub closed spec fn new_spec() -> Self {
        TypeScriptParser { _private: () }
    }

    pub fn new() -> (r: Self)
        ensures
            r == Self::new_spec(),
    {
        TypeScriptParser { _private: () }
    }

    pub fn language(&self) -> (r: Language)
        ensures
            r == Language::TypeScript,
    {
        Language::TypeScript
    }

    /// Parses a TypeScript file: its declarations with JSDoc, exported
    /// constants, and imports.
    pub fn parse(&self, source: &[u8], file_path: &str) -> (r: WikiGenResult<ParseOutput>)
        requires
            walk_finishes(Grammar::TypeScript, source@, ts_walk(source@, file_path@)),
        ensures
            parse_result_ok(r, Grammar::TypeScript, "TypeScript"@, Language::TypeScript, source@, file_path@, ts_walk(source@, file_path@)),
    {
        match self.parse_checked(source, file_path) {
            Some(r) => r,
            None => {
                assert(false);
                Err(WikiGenError::Parse { file: file_path.to_owned(), message: String::new() })
            },
        }
    }

    /// [`TypeScriptParser::parse`], or `None` where a signature would have to
    /// be cut inside a character.
    pub fn parse_checked(&self, source: &[u8], file_path: &str) -> (r: Option<WikiGenResult<ParseOutput>>)
        ensures
            match r {
                None => !walk_finishes(Grammar::TypeScript, source@, ts_walk(source@, file_path@)),
                Some(x) => walk_finishes(Grammar::TypeScript, source@, ts_walk(source@, file_path@))
                    && parse_result_ok(x, Grammar::TypeScript, "TypeScript"@, Language::TypeScript, source@, file_path@, ts_walk(source@, file_path@)),
            },
    {
        match parse_syntax(Grammar::TypeScript, source) {
            Err(e) => Some(Err(tree_error(e, "TypeScript", file_path))),
            Ok(t) => {
                let mut symbols: Vec<Symbol> = Vec::new();
                let mut references: Vec<Reference> = Vec::new();
                let ok = if t.len() > 0 {
                    ts_visit_node(&t, 0, source, file_path, None, &mut symbols, &mut references)
                } else {
                    true
                };
                if !ok {
                    return None;
                }
                let file = file_record(&t, source, file_path, Language::TypeScript);
                let ghost c = ts_visit(file_input(t@, source@, file_path@), 0, None).unwrap();
                assert(symbol_views(symbols@) =~= c.symbols);
                assert(reference_views(references@) =~= c.references);
                Some(Ok(ParseOutput { file, symbols, references, diagnostics: Vec::new() }))
            },
        }
    }
}

// ---------------------------------------------------------------------------
// Sections of other files
// ---------------------------------------------------------------------------

/// Whether a span moved by `b` bytes and `l` lines still fits in `usize`.
pub open spec fn span_fits(s: Span, b: usize, l: usize) -> bool {
    &&& s.start_byte + b <= usize::MAX
    &&& s.end_byte + b <= usize::MAX
    &&& s.start_line + l <= usize::MAX
    &&& s.end_line + l <= usize::MAX
}

/// A span moved by `b` bytes and `l` lines.
pub open spec fn shift_span(s: Span, b: usize, l: usize) -> Span {
    Span {
        start_byte: (s.start_byte + b) as usize,
        end_byte: (s.end_byte + b) as usize,
        start_line: (s.start_line + l) as usize,
        end_line: (s.end_line + l) as usize,
    }
}

/// Whether every collected span can be moved.
pub open spec fn collected_fits(c: Collected, b: usize, l: usize) -> bool {
    &&& forall|k: int| 0 <= k < c.symbols.len() ==> span_fits(#[trigger] c.symbols[k].span, b, l)
    &&& forall|k: int| 0 <= k < c.references.len() ==> span_fits(#[trigger] c.references[k].span, b, l)
}

/// What was collected, every span moved.
pub open spec fn shifted(c: Collected, b: usize, l: usize) -> Collected {
    Collected {
        symbols: Seq::new(c.symbols.len(), |k: int| SymbolView { span: shift_span(c.symbols[k].span, b, l), ..c.symbols[k] }),
        references: Seq::new(c.references.len(), |k: int| ReferenceView { span: shift_span(c.references[k].span, b, l), ..c.references[k] }),
    }
}

/// What parsing a TypeScript section that starts `b` bytes and `l` lines into
/// its file gives: the syntax error, or what the walk collects with its spans
/// moved; `None` where the walk cannot finish or a moved span overflows.
pub open spec fn section_outcome(content: Seq<u8>, path: Seq<char>, b: usize, l: usize) -> Option<Result<Collected, SyntaxError>> {
    match syntax_tree(Grammar::TypeScript, content) {
        Err(err) => Some(Err(err)),
        Ok(t) => match ts_visit(file_input(t, content, path), 0, None) {
            None => None,
            Some(c) => if collected_fits(c, b, l) {
                Some(Ok(shifted(c, b, l)))
            } else {
                None
            },
        },
    }
}

/// The section's result: its error, or its moved symbols and references and no diagnostics.
pub open spec fn section_result_ok(
    r: WikiGenResult<(Vec<Symbol>, Vec<Reference>, Vec<Diagnostic>)>,
    o: Result<Collected, SyntaxError>,
    path: Seq<char>,
) -> bool {
    match o {
        Err(err) => r matches Err(e) && tree_error_ok(e, err, "TypeScript"@, path),
        Ok(c) => r matches Ok(x) && symbol_views(x.0@) == c.symbols && reference_views(x.1@) == c.references && x.2@.len() == 0,
    }
}

/// Parses a TypeScript section embedded in another file, moving every span by
/// the section's byte and line offsets.
pub fn parse_typescript_section(
    source: &[u8],
    file_path: &str,
    byte_offset: usize,
    line_offset: usize,
) -> (r: WikiGenResult<(Vec<Symbol>, Vec<Reference>, Vec<Diagnostic>)>)
    requires
        section_outcome(source@, file_path@, byte_offset, line_offset) is Some,
    ensures
        section_result_ok(r, section_outcome(source@, file_path@, byte_offset, line_offset).unwrap(), file_path@),
{
    match parse_typescript_section_checked(source, file_path, byte_offset, line_offset) {
        Some(r) => r,
        None => {
            assert(false);
            Err(WikiGenError::Parse { file: file_path.to_owned(), message: String::new() })
        },
    }
}

/// [`parse_typescript_section`], or `None` where the walk cannot finish or a
/// moved span would overflow.
pub fn parse_typescript_section_checked(
    source: &[u8],
    file_path: &str,
    byte_offset: usize,
    line_offset: usize,
) -> (r: Option<WikiGenResult<(Vec<Symbol>, Vec<Reference>, Vec<Diagnostic>)>>)
    ensures
        match r {
            None => section_outcome(source@, file_path@, byte_offset, line_offset) is None,
            Some(x) => section_outcome(source@, file_path@, byte_offset, line_offset) matches Some(o)
                && section_result_ok(x, o, file_path@),
        },
{
    let parser = TypeScriptParser::new();
    let out = match parser.parse_checked(source, file_path) {
        None => return None,
        Some(Err(e)) => {
            return Some(Err(e));
        },
        Some(Ok(out)) => out,
    };
    let ghost t = syntax_tree(Grammar::TypeScript, source@)->Ok_0;
    let ghost c = ts_visit(file_input(t, source@, file_path@), 0, None).unwrap();
    assert(syntax_tree(Grammar::TypeScript, source@) == tree_ok(t));
    assert(ts_visit(file_input(t, source@, file_path@), 0, None) == Some(c));
    let mut symbols: Vec<Symbol> = Vec::new();
    let mut k: usize = 0;
    while k < out.symbols.len()
        invariant
            k <= out.symbols.len(),
            symbol_views(out.symbols@) == c.symbols,
            syntax_tree(Grammar::TypeScript, source@) == tree_ok(t),
            ts_visit(file_input(t, source@, file_path@), 0, None) == Some(c),
            symbols@.len() == k,
            forall|j: int| 0 <= j < k ==> span_fits(#[trigger] c.symbols[j].span, byte_offset, line_offset),
            forall|j: int| 0 <= j < k ==> #[trigger] symbols@[j]@ == (SymbolView { span: shift_span(c.symbols[j].span, byte_offset, line_offset), ..c.symbols[j] }),
        decreases out.symbols.len() - k,
    {
        let s = &out.symbols[k];
        assert(symbol_views(out.symbols@)[k as int] == s@);
        let sp = s.span;
        if sp.start_byte.checked_add(byte_offset).is_none() || sp.end_byte.checked_add(byte_offset).is_none()
            || sp.start_line.checked_add(line_offset).is_none() || sp.end_line.checked_add(line_offset).is_none() {
            assert(!span_fits(c.symbols[k as int].span, byte_offset, line_offset));
            return None;
        }
        let mut moved = s.clone_symbol();
        moved.span = sp.offset(byte_offset, line_offset);
        symbols.push(moved);
        k = k + 1;
    }
    let mut references: Vec<Reference> = Vec::new();
    let mut k: usize = 0;
    while k < out.references.len()
        invariant
            k <= out.references.len(),
            reference_views(out.references@) == c.references,
            syntax_tree(Grammar::TypeScript, source@) == tree_ok(t),
            ts_visit(file_input(t, source@, file_path@), 0, None) == Some(c),
            forall|j: int| 0 <= j < c.symbols.len() ==> span_fits(#[trigger] c.symbols[j].span, byte_offset, line_offset),
            references@.len() == k,
            forall|j: int| 0 <= j < k ==> span_fits(#[trigger] c.references[j].span, byte_offset, line_offset),
            forall|j: int| 0 <= j < k ==> #[trigger] references@[j]@ == (ReferenceView { span: shift_span(c.references[j].span, byte_offset, line_offset), ..c.references[j] }),
        decreases out.references.len() - k,
    {
        let r = &out.references[k];
        assert(reference_views(out.references@)[k as int] == r@);
        let sp = r.span;
        if sp.start_byte.checked_add(byte_offset).is_none() || sp.end_byte.checked_add(byte_offset).is_none()
            || sp.start_line.checked_add(line_offset).is_none() || sp.end_line.checked_add(line_offset).is_none() {
            assert(!span_fits(c.references[k as int].span, byte_offset, line_offset));
            return None;
        }
        let mut moved = r.clone_reference();
        moved.span = sp.offset(byte_offset, line_offset);
        references.push(moved);
        k = k + 1;
    }
    proof {
        assert(collected_fits(c, byte_offset, line_offset));
        assert(symbol_views(symbols@) =~= shifted(c, byte_offset, line_offset).symbols);
        assert(reference_views(references@) =~= shifted(c, byte_offset, line_offset).references);
    }
    Some(Ok((symbols, references, out.diagnostics)))
}


// ---------------------------------------------------------------------------
// Laws
// ---------------------------------------------------------------------------

/// The symbol of a named TypeScript declaration is the first thing a visit
/// of its node collects, and its kind is the one the node's grammar kind
/// names: `function_declaration` a function, `class_declaration` a class,
/// `interface_declaration` an interface, `type_alias_declaration` a type
/// alias, `enum_declaration` an enum, `method_definition` a method.
pub proof fn law_ts_declaration_kind(f: FileInput, i: int, ctx: Option<SymbolIdView>)
    requires
        0 <= i < f.nodes.len(),
        field_text(f.nodes, i, f.source, "name"@) is Some,
        ts_visit(f, i, ctx) is Some,
    ensures
        ({
            let c = ts_visit(f, i, ctx)->0;
            let k = f.nodes[i].kind@;
            &&& k == "function_declaration"@ ==> c.symbols.len() > 0 && c.symbols[0].kind == SymbolKind::Function
            &&& k == "class_declaration"@ ==> c.symbols.len() > 0 && c.symbols[0].kind == SymbolKind::Class
            &&& k == "interface_declaration"@ ==> c.symbols.len() > 0 && c.symbols[0].kind == SymbolKind::Interface
            &&& k == "type_alias_declaration"@ ==> c.symbols.len() > 0 && c.symbols[0].kind == SymbolKind::TypeAlias
            &&& k == "enum_declaration"@ ==> c.symbols.len() > 0 && c.symbols[0].kind == SymbolKind::Enum
            &&& k == "method_definition"@ ==> c.symbols.len() > 0 && c.symbols[0].kind == SymbolKind::Method
        }),
{
    reveal_strlit("function_declaration");
    assert("function_declaration"@.len() == 20);
    reveal_strlit("class_declaration");
    assert("class_declaration"@.len() == 17);
    reveal_strlit("interface_declaration");
    assert("interface_declaration"@.len() == 21);
    reveal_strlit("type_alias_declaration");
    assert("type_alias_declaration"@.len() == 22);
    reveal_strlit("enum_declaration");
    assert("enum_declaration"@.len() == 16);
    reveal_strlit("method_definition");
    assert("method_definition"@.len() == 17);
    assert("class_declaration"@ != "method_definition"@) by {
        assert("class_declaration"@[0] != "method_definition"@[0]);
    }
    let t = f.nodes;
    let k = t[i].kind@;
    if k == "function_declaration"@ {
        assert(ts_item_kind(t, i) == Some(SymbolKind::Function));
    }
    if k == "class_declaration"@ {
        assert(!kind_is(t, i, "function_declaration"@));
        assert(ts_item_kind(t, i) == Some(SymbolKind::Class));
    }
    if k == "interface_declaration"@ {
        assert(!kind_is(t, i, "function_declaration"@));
        assert(!kind_is(t, i, "class_declaration"@));
        assert(ts_item_kind(t, i) == Some(SymbolKind::Interface));
    }
    if k == "type_alias_declaration"@ {
        assert(!kind_is(t, i, "function_declaration"@));
        assert(!kind_is(t, i, "class_declaration"@));
        assert(!kind_is(t, i, "interface_declaration"@));
        assert(ts_item_kind(t, i) == Some(SymbolKind::TypeAlias));
    }
    if k == "enum_declaration"@ {
        assert(!kind_is(t, i, "function_declaration"@));
        assert(!kind_is(t, i, "class_declaration"@));
        assert(!kind_is(t, i, "interface_declaration"@));
        assert(!kind_is(t, i, "type_alias_declaration"@));
        assert(ts_item_kind(t, i) == Some(SymbolKind::Enum));
    }
    if k == "method_definition"@ {
        assert(!kind_is(t, i, "function_declaration"@));
        assert(!kind_is(t, i, "class_declaration"@));
        assert(!kind_is(t, i, "interface_declaration"@));
        assert(!kind_is(t, i, "type_alias_declaration"@));
        assert(!kind_is(t, i, "enum_declaration"@));
        assert(ts_item_kind(t, i) == Some(SymbolKind::Method));
    }
    if ts_item_kind(t, i) is Some {
        let kind = ts_item_kind(t, i)->0;
        assert(ts_item(f, i, ctx, kind) is Some);
        assert(ts_item(f, i, ctx, kind)->0 is Some);
        let sym = ts_item(f, i, ctx, kind)->0->0;
        assert(sym.kind == kind);
        let c = ts_visit(f, i, ctx)->0;
        assert(c.symbols[0] == sym);
    }
}

} // verus!
