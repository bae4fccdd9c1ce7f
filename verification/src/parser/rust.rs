//! The Rust parser: functions, types, traits, modules, constants and type
//! aliases, the methods of `impl` blocks, `use` declarations, attributes and
//! doc comments of a Rust source file.

use vstd::prelude::*;

use crate::error::{WikiGenError, WikiGenResult};
use crate::parser::{file_record, parse_result_ok, tree_error, walk_finishes, ParseOutput};
use crate::parser::syntax::{parse_syntax, Grammar};
use crate::ir::{
    Language, doc_view, reference_views, symbol_views, lemma_reference_views_push, lemma_symbol_views_push, opt_str, strs, Annotation,
    AnnotationView, Doc, DocFormat, DocView, Reference, ReferenceKind, ReferenceTarget,
    ReferenceTargetView, ReferenceView, Symbol, SymbolId, SymbolIdView, SymbolKind, SymbolView,
    Visibility, annotation_views,
};
use crate::parser::extract::{
    build_qualified_name, extends, extract_signature, field_text, field_text_exec, file_input,
    next_child, node_signature, node_symbol, nothing, qualified_name, ref_view, text_or_empty,
    text_or_empty_exec, then, Collected, FileInput, make_symbol,
};
use crate::parser::syntax::{
    field_child, find_field_child, find_prev_sibling, find_subtree_end, kind_is, kind_is_exec,
    lemma_prev_from_bounds, lemma_subtree_end_bounds, node_span, node_span_exec, node_text,
    node_text_exec, placed, prev_sibling, subtree_end, SyntaxNode,
};
use crate::text::{
    chars_of, contains, contains_vec, join, join_vec, single, split_first, split_first_vec,
    split_last, split_last_vec, starts_with, starts_with_vec, string_of, trim, trim_end_matches,
    trim_end_matches_vec, trim_start_matches, trim_start_matches_vec, trim_vec, views, append_vec,
};

verus! {

/// Parses Rust source files.
pub struct RustParser {
    _private: (),
}

impl RustParser {
    pub closed spec fn new_spec() -> Self {
        RustParser { _private: () }
    }

    pub fn new() -> (r: Self)
        ensures
            r == Self::new_spec(),
    {
        RustParser { _private: () }
    }

    pub fn language(&self) -> (r: Language)
        ensures
            r == Language::Rust,
    {
        Language::Rust
    }

    /// Parses a Rust file: its symbols, with doc comments, attributes and
    /// type parameters, the methods of its impl blocks, and its references.
    pub fn parse(&self, source: &[u8], file_path: &str) -> (r: WikiGenResult<ParseOutput>)
        requires
            walk_finishes(Grammar::Rust, source@, rust_walk(source@, file_path@)),
        ensures
            parse_result_ok(r, Grammar::Rust, "Rust"@, Language::Rust, source@, file_path@, rust_walk(source@, file_path@)),
    {
        match self.parse_checked(source, file_path) {
            Some(r) => r,
            None => {
                assert(false);
                Err(WikiGenError::Parse { file: file_path.to_owned(), message: String::new() })
            },
        }
    }

    /// [`RustParser::parse`], or `None` where a signature would have to be cut
    /// inside a character.
    pub fn parse_checked(&self, source: &[u8], file_path: &str) -> (r: Option<WikiGenResult<ParseOutput>>)
        ensures
            match r {
                None => !walk_finishes(Grammar::Rust, source@, rust_walk(source@, file_path@)),
                Some(x) => walk_finishes(Grammar::Rust, source@, rust_walk(source@, file_path@))
                    && parse_result_ok(x, Grammar::Rust, "Rust"@, Language::Rust, source@, file_path@, rust_walk(source@, file_path@)),
            },
    {
        match parse_syntax(Grammar::Rust, source) {
            Err(e) => Some(Err(tree_error(e, "Rust", file_path))),
            Ok(t) => {
                let mut symbols: Vec<Symbol> = Vec::new();
                let mut references: Vec<Reference> = Vec::new();
                let ok = if t.len() > 0 {
                    rust_visit_node(&t, 0, source, file_path, None, &mut symbols, &mut references)
                } else {
                    true
                };
                if !ok {
                    return None;
                }
                let file = file_record(&t, source, file_path, Language::Rust);
                let ghost c = rust_visit(file_input(t@, source@, file_path@), 0, None).unwrap();
                assert(symbol_views(symbols@) =~= c.symbols);
                assert(reference_views(references@) =~= c.references);
                Some(Ok(ParseOutput { file, symbols, references, diagnostics: Vec::new() }))
            },
        }
    }
}

/// What the Rust walk collects from a tree of `source` at `path`: the visit of the root.
pub open spec fn rust_walk(source: Seq<u8>, path: Seq<char>) -> spec_fn(Seq<SyntaxNode>) -> Option<Collected> {
    |t: Seq<SyntaxNode>| rust_visit(file_input(t, source, path), 0, None)
}

// ---------------------------------------------------------------------------
// What one node gives
// ---------------------------------------------------------------------------

/// `pub` visibility: a `visibility_modifier` child whose text holds `pub`.
pub open spec fn rust_vis_from(t: Seq<SyntaxNode>, src: Seq<u8>, p: int, c: int) -> Visibility
    decreases t.len() - c,
{
    if !(0 <= c < t.len() && c < subtree_end(t, p)) {
        Visibility::Private
    } else if kind_is(t, c, "visibility_modifier"@) && contains(text_or_empty(t, c, src), "pub"@) {
        Visibility::Public
    } else {
        proof {
            lemma_subtree_end_bounds(t, c);
        }
        rust_vis_from(t, src, p, subtree_end(t, c))
    }
}

/// Doc comment lines above a node, collected from the nearest sibling upwards
/// and kept in source order; `None` where a comment's text is not UTF-8.
pub open spec fn rust_doc_scan(t: Seq<SyntaxNode>, src: Seq<u8>, j: Option<int>, acc: Seq<Seq<char>>) -> Option<Seq<Seq<char>>>
    decreases (match j {
        Some(k) => k + 1,
        None => 0,
    }),
{
    match j {
        None => Some(acc),
        Some(k) => {
            if !(0 <= k < t.len()) {
                Some(acc)
            } else if kind_is(t, k, "line_comment"@) {
                match node_text(t, k, src) {
                    None => None,
                    Some(text) => {
                        proof {
                            lemma_prev_from_bounds(t, k, k - 1);
                        }
                        if starts_with(text, "///"@) {
                            rust_doc_scan(t, src, prev_sibling(t, k), seq![trim(trim_start_matches(text, "///"@))] + acc)
                        } else if starts_with(text, "//!"@) {
                            rust_doc_scan(t, src, prev_sibling(t, k), seq![trim(trim_start_matches(text, "//!"@))] + acc)
                        } else {
                            Some(acc)
                        }
                    },
                }
            } else if kind_is(t, k, "block_comment"@) {
                match node_text(t, k, src) {
                    None => None,
                    Some(text) => if starts_with(text, "/**"@) || starts_with(text, "/*!"@) {
                        Some(seq![block_comment_text(text)] + acc)
                    } else {
                        Some(acc)
                    },
                }
            } else {
                Some(acc)
            }
        },
    }
}

/// A `/** */` or `/*! */` comment without its delimiters, trimmed.
pub open spec fn block_comment_text(text: Seq<char>) -> Seq<char> {
    trim(trim_end_matches(trim_start_matches(trim_start_matches(text, "/**"@), "/*!"@), "*/"@))
}

/// The doc comment of a node: its lines joined, the first as summary.
pub open spec fn rust_doc(t: Seq<SyntaxNode>, src: Seq<u8>, i: int) -> Option<DocView> {
    match rust_doc_scan(t, src, prev_sibling(t, i), Seq::empty()) {
        None => None,
        Some(acc) => if acc.len() == 0 {
            None
        } else {
            Some(DocView { raw: join(acc, "\n"@), format: DocFormat::RustDoc, summary: Some(acc[0]) })
        },
    }
}

/// Type parameters among the children, from `d` on, of a `type_parameters` node `q`.
pub open spec fn rust_tp_inner(t: Seq<SyntaxNode>, src: Seq<u8>, q: int, d: int) -> Seq<Seq<char>>
    decreases t.len() - d,
{
    if !(0 <= d < t.len() && d < subtree_end(t, q)) {
        Seq::empty()
    } else {
        proof {
            lemma_subtree_end_bounds(t, d);
        }
        let here = if (kind_is(t, d, "type_identifier"@) || kind_is(t, d, "constrained_type_parameter"@))
            && node_text(t, d, src) is Some {
            seq![node_text(t, d, src).unwrap()]
        } else {
            Seq::empty()
        };
        here + rust_tp_inner(t, src, q, subtree_end(t, d))
    }
}

/// The type parameters of the `type_parameters` children of `p`, from `c` on.
pub open spec fn rust_tp_outer(t: Seq<SyntaxNode>, src: Seq<u8>, p: int, c: int) -> Seq<Seq<char>>
    decreases t.len() - c,
{
    if !(0 <= c < t.len() && c < subtree_end(t, p)) {
        Seq::empty()
    } else {
        proof {
            lemma_subtree_end_bounds(t, c);
        }
        let here = if kind_is(t, c, "type_parameters"@) {
            rust_tp_inner(t, src, c, c + 1)
        } else {
            Seq::empty()
        };
        here + rust_tp_outer(t, src, p, subtree_end(t, c))
    }
}

/// The name of an attribute: its text without `#[` or `#![`, cut at `(`, without a closing `]`.
pub open spec fn attr_name(text: Seq<char>) -> Seq<char> {
    trim_end_matches(split_first(trim_start_matches(trim_start_matches(text, "#["@), "#!["@), "("@), "]"@)
}

/// The attributes just above a node, nearest first.
pub open spec fn rust_attr_scan(t: Seq<SyntaxNode>, src: Seq<u8>, j: Option<int>) -> Seq<AnnotationView>
    decreases (match j {
        Some(k) => k + 1,
        None => 0,
    }),
{
    match j {
        None => Seq::empty(),
        Some(k) => {
            if 0 <= k < t.len() && (kind_is(t, k, "attribute_item"@) || kind_is(t, k, "inner_attribute_item"@)) {
                proof {
                    lemma_prev_from_bounds(t, k, k - 1);
                }
                let here = match node_text(t, k, src) {
                    Some(text) => seq![AnnotationView { name: attr_name(text), arguments: Seq::empty(), span: node_span(t[k]) }],
                    None => Seq::empty(),
                };
                here + rust_attr_scan(t, src, prev_sibling(t, k))
            } else {
                Seq::empty()
            }
        },
    }
}

pub open spec fn is_use_path_kind(t: Seq<SyntaxNode>, c: int) -> bool {
    ||| kind_is(t, c, "use_wildcard"@)
    ||| kind_is(t, c, "use_list"@)
    ||| kind_is(t, c, "scoped_identifier"@)
    ||| kind_is(t, c, "identifier"@)
    ||| kind_is(t, c, "scoped_use_list"@)
}

/// The imported path of a `use` declaration: the text of its first path-like child.
pub open spec fn rust_use_from(t: Seq<SyntaxNode>, src: Seq<u8>, p: int, c: int) -> Option<Seq<char>>
    decreases t.len() - c,
{
    if !(0 <= c < t.len() && c < subtree_end(t, p)) {
        None
    } else if is_use_path_kind(t, c) {
        node_text(t, c, src)
    } else {
        proof {
            lemma_subtree_end_bounds(t, c);
        }
        rust_use_from(t, src, p, subtree_end(t, c))
    }
}

/// The symbol kind of a declaration node, if it declares one.
pub open spec fn rust_item_kind(t: Seq<SyntaxNode>, i: int) -> Option<SymbolKind> {
    if kind_is(t, i, "function_item"@) {
        Some(SymbolKind::Function)
    } else if kind_is(t, i, "struct_item"@) {
        Some(SymbolKind::Struct)
    } else if kind_is(t, i, "enum_item"@) {
        Some(SymbolKind::Enum)
    } else if kind_is(t, i, "trait_item"@) {
        Some(SymbolKind::Trait)
    } else if kind_is(t, i, "mod_item"@) {
        Some(SymbolKind::Module)
    } else if kind_is(t, i, "const_item"@) || kind_is(t, i, "static_item"@) {
        Some(SymbolKind::Constant)
    } else if kind_is(t, i, "type_item"@) {
        Some(SymbolKind::TypeAlias)
    } else {
        None
    }
}

/// Declarations whose children are visited with the declared symbol as parent.
pub open spec fn is_scope(k: SymbolKind) -> bool {
    k == SymbolKind::Function || k == SymbolKind::Struct || k == SymbolKind::Enum
        || k == SymbolKind::Trait || k == SymbolKind::Module
}

/// The symbol a declaration node gives: `Some(None)` when it has no readable
/// name, `None` where its signature cannot be cut.
pub open spec fn rust_item(f: FileInput, i: int, ctx: Option<SymbolIdView>, kind: SymbolKind) -> Option<Option<SymbolView>> {
    let t = f.nodes;
    let src = f.source;
    match field_text(t, i, src, "name"@) {
        None => Some(None),
        Some(name) => {
            let q = qualified_name(f.path, name, "::"@, "::"@);
            let vis = rust_vis_from(t, src, i, i + 1);
            let doc = rust_doc(t, src, i);
            let attrs = rust_attr_scan(t, src, prev_sibling(t, i));
            let tps = rust_tp_outer(t, src, i, i + 1);
            if kind == SymbolKind::Function {
                match node_signature(t, i, src, '{') {
                    None => None,
                    Some(sig) => Some(Some(node_symbol(f.path, t[i], kind, q, vis, sig, doc, ctx, attrs, tps))),
                }
            } else if kind == SymbolKind::Struct {
                Some(Some(node_symbol(f.path, t[i], kind, q, vis, Some("struct "@ + name), doc, ctx, attrs, tps)))
            } else if kind == SymbolKind::Enum {
                Some(Some(node_symbol(f.path, t[i], kind, q, vis, Some("enum "@ + name), doc, ctx, attrs, tps)))
            } else if kind == SymbolKind::Trait {
                Some(Some(node_symbol(f.path, t[i], kind, q, vis, Some("trait "@ + name), doc, ctx, attrs, tps)))
            } else if kind == SymbolKind::Module {
                Some(Some(node_symbol(f.path, t[i], kind, q, vis, Some("mod "@ + name), doc, ctx, Seq::empty(), Seq::empty())))
            } else {
                match node_signature(t, i, src, '{') {
                    None => None,
                    Some(sig) => Some(Some(node_symbol(f.path, t[i], kind, q, vis, sig, doc, ctx, Seq::empty(), Seq::empty()))),
                }
            }
        },
    }
}

/// An impl's function as a method: its kind, and its name under the impl's type.
pub open spec fn as_method(s: SymbolView, ty: Option<Seq<char>>) -> SymbolView {
    SymbolView {
        kind: SymbolKind::Method,
        qualified_name: match ty {
            Some(tn) => tn + "::"@ + split_last(s.qualified_name, "::"@),
            None => s.qualified_name,
        },
        ..s
    }
}

/// The methods among the children of an impl body `b`, from `c` on.
pub open spec fn rust_methods_from(f: FileInput, b: int, c: int, ctx: Option<SymbolIdView>, ty: Option<Seq<char>>) -> Option<Seq<SymbolView>>
    decreases f.nodes.len() - c,
{
    let t = f.nodes;
    if !(0 <= c < t.len() && c < subtree_end(t, b)) {
        Some(Seq::empty())
    } else {
        proof {
            lemma_subtree_end_bounds(t, c);
        }
        let rest = rust_methods_from(f, b, subtree_end(t, c), ctx, ty);
        if kind_is(t, c, "function_item"@) {
            match rust_item(f, c, ctx, SymbolKind::Function) {
                None => None,
                Some(None) => rest,
                Some(Some(s)) => match rest {
                    None => None,
                    Some(r) => Some(seq![as_method(s, ty)] + r),
                },
            }
        } else {
            rest
        }
    }
}

/// The `Implements` reference of a trait impl, made under a parent symbol.
pub open spec fn rust_impl_refs(t: Seq<SyntaxNode>, src: Seq<u8>, i: int, ctx: Option<SymbolIdView>) -> Seq<ReferenceView> {
    match (field_text(t, i, src, "trait"@), field_text(t, i, src, "type"@), ctx) {
        (Some(tr), Some(_), Some(p)) => seq![ReferenceView {
            source: p,
            target: ReferenceTargetView::Unresolved(tr),
            kind: ReferenceKind::Implements,
            span: node_span(t[i]),
        }],
        _ => Seq::empty(),
    }
}

/// What an `impl` block gives: its methods and its `Implements` reference.
/// Nothing inside it is visited further.
pub open spec fn rust_impl(f: FileInput, i: int, ctx: Option<SymbolIdView>) -> Option<Collected> {
    let t = f.nodes;
    let ty = field_text(t, i, f.source, "type"@);
    let ms = match field_child(t, i, "body"@) {
        None => Some(Seq::empty()),
        Some(b) => rust_methods_from(f, b, b + 1, ctx, ty),
    };
    match ms {
        None => None,
        Some(m) => Some(Collected { symbols: m, references: rust_impl_refs(t, f.source, i, ctx) }),
    }
}

/// The `Import` reference of a `use` declaration, made under a parent symbol.
pub open spec fn rust_use_refs(t: Seq<SyntaxNode>, src: Seq<u8>, i: int, ctx: Option<SymbolIdView>) -> Seq<ReferenceView> {
    match (rust_use_from(t, src, i, i + 1), ctx) {
        (Some(name), Some(p)) => seq![ReferenceView {
            source: p,
            target: ReferenceTargetView::Unresolved(name),
            kind: ReferenceKind::Import,
            span: node_span(t[i]),
        }],
        _ => Seq::empty(),
    }
}

// ---------------------------------------------------------------------------
// The walk
// ---------------------------------------------------------------------------

/// What visiting node `i` under the parent `ctx` collects; `None` where a
/// signature cannot be cut.
pub open spec fn rust_visit(f: FileInput, i: int, ctx: Option<SymbolIdView>) -> Option<Collected>
    decreases 2 * (f.nodes.len() - i) + 1,
{
    let t = f.nodes;
    if !(0 <= i < t.len()) {
        Some(nothing())
    } else {
        match rust_item_kind(t, i) {
            Some(kind) => match rust_item(f, i, ctx, kind) {
                None => None,
                Some(Some(s)) => then(
                    Some(Collected { symbols: seq![s], references: Seq::empty() }),
                    rust_children(f, i, i + 1, if is_scope(kind) { Some(s.id) } else { ctx }),
                ),
                Some(None) => rust_children(f, i, i + 1, ctx),
            },
            None => if kind_is(t, i, "impl_item"@) {
                rust_impl(f, i, ctx)
            } else if kind_is(t, i, "use_declaration"@) {
                then(
                    Some(Collected { symbols: Seq::empty(), references: rust_use_refs(t, f.source, i, ctx) }),
                    rust_children(f, i, i + 1, ctx),
                )
            } else {
                rust_children(f, i, i + 1, ctx)
            },
        }
    }
}

/// What visiting the children of `p`, from `c` on, collects.
pub open spec fn rust_children(f: FileInput, p: int, c: int, ctx: Option<SymbolIdView>) -> Option<Collected>
    decreases 2 * (f.nodes.len() - c) + 2,
{
    let t = f.nodes;
    if !(0 <= c < t.len() && c < subtree_end(t, p)) {
        Some(nothing())
    } else {
        proof {
            lemma_subtree_end_bounds(t, c);
        }
        then(rust_visit(f, c, ctx), rust_children(f, p, subtree_end(t, c), ctx))
    }
}

// ---------------------------------------------------------------------------
// Executable extraction
// ---------------------------------------------------------------------------

fn rust_visibility(t: &Vec<SyntaxNode>, i: usize, source: &[u8]) -> (r: Visibility)
    requires
        i < t.len(),
    ensures
        r == rust_vis_from(t@, source@, i as int, i as int + 1),
{
    let end = find_subtree_end(t, i);
    let pubw = chars_of("pub");
    let mut c: usize = i + 1;
    while c < end
        invariant
            i < c,
            end as int == subtree_end(t@, i as int),
            end <= t.len(),
            pubw@ == "pub"@,
            rust_vis_from(t@, source@, i as int, c as int) == rust_vis_from(t@, source@, i as int, i as int + 1),
        decreases t.len() - c,
    {
        if kind_is_exec(t, c, "visibility_modifier") {
            let text = text_or_empty_exec(t, c, source);
            if contains_vec(&text, &pubw) {
                return Visibility::Public;
            }
        }
        c = next_child(t, c);
    }
    Visibility::Private
}

fn rust_doc_exec(t: &Vec<SyntaxNode>, i: usize, source: &[u8]) -> (r: Option<Doc>)
    requires
        i < t.len(),
    ensures
        doc_view(r) == rust_doc(t@, source@, i as int),
{
    let mut acc: Vec<Vec<char>> = Vec::new();
    let mut cur = find_prev_sibling(t, i);
    let ghost start = prev_sibling(t@, i as int);
    let tri = chars_of("///");
    let inner = chars_of("//!");
    let bopen = chars_of("/**");
    let bopen2 = chars_of("/*!");
    let bclose = chars_of("*/");
    loop
        invariant_except_break
            rust_doc_scan(t@, source@, match cur {
                Some(k) => Some(k as int),
                None => None,
            }, views(acc@)) == rust_doc_scan(t@, source@, start, Seq::empty()),
        invariant
            tri@ == "///"@,
            inner@ == "//!"@,
            bopen@ == "/**"@,
            bopen2@ == "/*!"@,
            bclose@ == "*/"@,
            cur matches Some(k) ==> k < t.len(),
            start == prev_sibling(t@, i as int),
        ensures
            rust_doc_scan(t@, source@, start, Seq::empty()) == Some(views(acc@)),
        decreases (match cur {
            Some(k) => k + 1,
            None => 0,
        }),
    {
        let k = match cur {
            None => {
                assert(rust_doc_scan(t@, source@, None, views(acc@)) == Some(views(acc@)));
                break;
            },
            Some(k) => k,
        };
        let ghost before = views(acc@);
        if kind_is_exec(t, k, "line_comment") {
            let text = match node_text_exec(t, k, source) {
                None => {
                    assert(rust_doc_scan(t@, source@, Some(k as int), before) is None);
                    return None;
                },
                Some(x) => chars_of(x.as_str()),
            };
            let line = if starts_with_vec(&text, &tri) {
                let a = trim_start_matches_vec(&text, &tri);
                trim_vec(&a)
            } else if starts_with_vec(&text, &inner) {
                let a = trim_start_matches_vec(&text, &inner);
                trim_vec(&a)
            } else {
                assert(rust_doc_scan(t@, source@, Some(k as int), before) == Some(before));
                break;
            };
            acc.insert(0, line);
            assert(views(acc@) =~= seq![line@] + before);
            cur = find_prev_sibling(t, k);
        } else if kind_is_exec(t, k, "block_comment") {
            let text = match node_text_exec(t, k, source) {
                None => {
                    assert(rust_doc_scan(t@, source@, Some(k as int), before) is None);
                    return None;
                },
                Some(x) => chars_of(x.as_str()),
            };
            if starts_with_vec(&text, &bopen) || starts_with_vec(&text, &bopen2) {
                let a = trim_start_matches_vec(&text, &bopen);
                let b = trim_start_matches_vec(&a, &bopen2);
                let c = trim_end_matches_vec(&b, &bclose);
                let line = trim_vec(&c);
                acc.insert(0, line);
                assert(views(acc@) =~= seq![line@] + before);
            }
            assert(rust_doc_scan(t@, source@, Some(k as int), before) == Some(views(acc@)));
            break;
        } else {
            assert(rust_doc_scan(t@, source@, Some(k as int), before) == Some(before));
            break;
        }
    }
    assert(rust_doc_scan(t@, source@, prev_sibling(t@, i as int), Seq::empty()) == Some(views(acc@)));
    if acc.len() == 0 {
        return None;
    }
    let nl = single('\n');
    proof { reveal_strlit("\n"); }
    assert(nl@ =~= "\n"@);
    let raw = join_vec(&acc, &nl);
    assert(views(acc@)[0] == acc@[0]@);
    Some(Doc { raw: string_of(raw.as_slice()), format: DocFormat::RustDoc, summary: Some(string_of(acc[0].as_slice())) })
}

fn rust_type_params(t: &Vec<SyntaxNode>, i: usize, source: &[u8]) -> (r: Vec<String>)
    requires
        i < t.len(),
    ensures
        strs(r@) == rust_tp_outer(t@, source@, i as int, i as int + 1),
{
    let mut out: Vec<String> = Vec::new();
    let end = find_subtree_end(t, i);
    let mut c: usize = i + 1;
    while c < end
        invariant
            i < c,
            end as int == subtree_end(t@, i as int),
            end <= t.len(),
            strs(out@) + rust_tp_outer(t@, source@, i as int, c as int) == rust_tp_outer(t@, source@, i as int, i as int + 1),
        decreases t.len() - c,
    {
        let ghost before = strs(out@);
        if kind_is_exec(t, c, "type_parameters") {
            let qend = find_subtree_end(t, c);
            let mut d: usize = c + 1;
            while d < qend
                invariant
                    c < d,
                    c < t.len(),
                    qend as int == subtree_end(t@, c as int),
                    qend <= t.len(),
                    strs(out@) + rust_tp_inner(t@, source@, c as int, d as int) == before + rust_tp_inner(t@, source@, c as int, c as int + 1),
                decreases t.len() - d,
            {
                let ghost b2 = strs(out@);
                if kind_is_exec(t, d, "type_identifier") || kind_is_exec(t, d, "constrained_type_parameter") {
                    match node_text_exec(t, d, source) {
                        Some(x) => {
                            out.push(x);
                            assert(strs(out@) =~= b2.push(x@));
                        },
                        None => {},
                    }
                }
                let nd = next_child(t, d);
                assert(strs(out@) + rust_tp_inner(t@, source@, c as int, nd as int) =~= b2 + rust_tp_inner(t@, source@, c as int, d as int));
                d = nd;
            }
        }
        let nc = next_child(t, c);
        assert(strs(out@) + rust_tp_outer(t@, source@, i as int, nc as int) =~= before + rust_tp_outer(t@, source@, i as int, c as int));
        c = nc;
    }
    assert(strs(out@) + Seq::<Seq<char>>::empty() =~= strs(out@));
    out
}

fn rust_attributes(t: &Vec<SyntaxNode>, i: usize, source: &[u8], Ghost(len): Ghost<nat>) -> (r: Vec<Annotation>)
    requires
        i < t.len(),
        placed(t@, len),
    ensures
        annotation_views(r@) == rust_attr_scan(t@, source@, prev_sibling(t@, i as int)),
{
    let mut out: Vec<Annotation> = Vec::new();
    let mut cur = find_prev_sibling(t, i);
    let ghost start = prev_sibling(t@, i as int);
    let h1 = chars_of("#[");
    let h2 = chars_of("#![");
    let paren = chars_of("(");
    let close = chars_of("]");
    loop
        invariant
            h1@ == "#["@,
            h2@ == "#!["@,
            paren@ == "("@,
            close@ == "]"@,
            placed(t@, len),
            cur matches Some(k) ==> k < t.len(),
            annotation_views(out@) + rust_attr_scan(t@, source@, match cur {
                Some(k) => Some(k as int),
                None => None,
            }) == rust_attr_scan(t@, source@, start),
        ensures
            annotation_views(out@) == rust_attr_scan(t@, source@, start),
        decreases (match cur {
            Some(k) => k + 1,
            None => 0,
        }),
    {
        let k = match cur {
            None => {
                assert(annotation_views(out@) + Seq::<AnnotationView>::empty() =~= annotation_views(out@));
                break;
            },
            Some(k) => k,
        };
        if !(kind_is_exec(t, k, "attribute_item") || kind_is_exec(t, k, "inner_attribute_item")) {
            assert(annotation_views(out@) + Seq::<AnnotationView>::empty() =~= annotation_views(out@));
            break;
        }
        let ghost before = annotation_views(out@);
        proof { lemma_prev_from_bounds(t@, k as int, k as int - 1); }
        match node_text_exec(t, k, source) {
            Some(x) => {
                let text = chars_of(x.as_str());
                let a = trim_start_matches_vec(&text, &h1);
                let b = trim_start_matches_vec(&a, &h2);
                let c = split_first_vec(&b, &paren);
                let d = trim_end_matches_vec(&c, &close);
                let span = node_span_exec(t, k, Ghost(len));
                let ann = Annotation { name: string_of(d.as_slice()), arguments: Vec::new(), span };
                assert(strs(ann.arguments@) =~= Seq::<Seq<char>>::empty());
                out.push(ann);
                assert(annotation_views(out@) =~= before.push(ann@));
            },
            None => {},
        }
        let nxt = find_prev_sibling(t, k);
        assert(annotation_views(out@) + rust_attr_scan(t@, source@, match nxt {
            Some(q) => Some(q as int),
            None => None,
        }) =~= before + rust_attr_scan(t@, source@, Some(k as int)));
        cur = nxt;
    }
    out
}

fn rust_use_path(t: &Vec<SyntaxNode>, i: usize, source: &[u8]) -> (r: Option<String>)
    requires
        i < t.len(),
    ensures
        opt_str(r) == rust_use_from(t@, source@, i as int, i as int + 1),
{
    let end = find_subtree_end(t, i);
    let mut c: usize = i + 1;
    while c < end
        invariant
            i < c,
            end as int == subtree_end(t@, i as int),
            end <= t.len(),
            rust_use_from(t@, source@, i as int, c as int) == rust_use_from(t@, source@, i as int, i as int + 1),
        decreases t.len() - c,
    {
        if kind_is_exec(t, c, "use_wildcard") || kind_is_exec(t, c, "use_list") || kind_is_exec(t, c, "scoped_identifier")
            || kind_is_exec(t, c, "identifier") || kind_is_exec(t, c, "scoped_use_list") {
            return node_text_exec(t, c, source);
        }
        c = next_child(t, c);
    }
    None
}

fn rust_item_kind_exec(t: &Vec<SyntaxNode>, i: usize) -> (r: Option<SymbolKind>)
    requires
        i < t.len(),
    ensures
        r == rust_item_kind(t@, i as int),
{
    if kind_is_exec(t, i, "function_item") {
        Some(SymbolKind::Function)
    } else if kind_is_exec(t, i, "struct_item") {
        Some(SymbolKind::Struct)
    } else if kind_is_exec(t, i, "enum_item") {
        Some(SymbolKind::Enum)
    } else if kind_is_exec(t, i, "trait_item") {
        Some(SymbolKind::Trait)
    } else if kind_is_exec(t, i, "mod_item") {
        Some(SymbolKind::Module)
    } else if kind_is_exec(t, i, "const_item") || kind_is_exec(t, i, "static_item") {
        Some(SymbolKind::Constant)
    } else if kind_is_exec(t, i, "type_item") {
        Some(SymbolKind::TypeAlias)
    } else {
        None
    }
}

/// `"{prefix} {name}"`.
fn labelled(prefix: &str, name: &str) -> (r: String)
    ensures
        r@ == prefix@ + " "@ + name@,
{
    let mut v = chars_of(prefix);
    v.push(' ');
    let n = chars_of(name);
    append_vec(&mut v, &n);
    proof { reveal_strlit(" "); }
    assert(v@ =~= prefix@ + " "@ + name@);
    string_of(v.as_slice())
}

fn rust_extract_item(
    t: &Vec<SyntaxNode>,
    i: usize,
    source: &[u8],
    path: &str,
    parent: Option<&SymbolId>,
    kind: SymbolKind,
) -> (r: Option<Option<Symbol>>)
    requires
        i < t.len(),
        placed(t@, source@.len()),
    ensures
        match r {
            None => rust_item(file_input(t@, source@, path@), i as int, ref_view(parent), kind) is None,
            Some(None) => rust_item(file_input(t@, source@, path@), i as int, ref_view(parent), kind) == Some(None::<SymbolView>),
            Some(Some(s)) => rust_item(file_input(t@, source@, path@), i as int, ref_view(parent), kind) == Some(Some(s@)),
        },
{
    let ghost len = source@.len();
    let name = match field_text_exec(t, i, source, "name") {
        None => return Some(None),
        Some(n) => n,
    };
    let q = build_qualified_name(path, name.as_str(), "::", "::");
    let vis = rust_visibility(t, i, source);
    let doc = rust_doc_exec(t, i, source);
    proof {
        reveal_strlit("struct ");
        reveal_strlit("enum ");
        reveal_strlit("trait ");
        reveal_strlit("mod ");
        reveal_strlit("struct");
        reveal_strlit("enum");
        reveal_strlit("trait");
        reveal_strlit("mod");
        reveal_strlit(" ");
    }
    match kind {
        SymbolKind::Function => {
            let sig = match extract_signature(t, i, source, '{') {
                None => {
                    assert(rust_item(file_input(t@, source@, path@), i as int, ref_view(parent), kind) is None);
                    return None;
                },
                Some(s) => s,
            };
            let attrs = rust_attributes(t, i, source, Ghost(len));
            let tps = rust_type_params(t, i, source);
            let r = make_symbol(path, t, i, Ghost(len), kind, q, vis, sig, doc, parent, attrs, tps);
            assert(rust_item(file_input(t@, source@, path@), i as int, ref_view(parent), kind) == Some(Some(r@)));
            Some(Some(r))
        },
        SymbolKind::Struct | SymbolKind::Enum | SymbolKind::Trait => {
            let sig = match kind {
                SymbolKind::Struct => {
                    let s = labelled("struct", name.as_str());
                    assert(s@ =~= "struct "@ + name@);
                    s
                },
                SymbolKind::Enum => {
                    let s = labelled("enum", name.as_str());
                    assert(s@ =~= "enum "@ + name@);
                    s
                },
                _ => {
                    let s = labelled("trait", name.as_str());
                    assert(s@ =~= "trait "@ + name@);
                    s
                },
            };
            let attrs = rust_attributes(t, i, source, Ghost(len));
            let tps = rust_type_params(t, i, source);
            let r = make_symbol(path, t, i, Ghost(len), kind, q, vis, Some(sig), doc, parent, attrs, tps);
            assert(rust_item(file_input(t@, source@, path@), i as int, ref_view(parent), kind) == Some(Some(r@)));
            Some(Some(r))
        },
        SymbolKind::Module => {
            let sig = labelled("mod", name.as_str());
            assert(sig@ =~= "mod "@ + name@);
            let anns: Vec<Annotation> = Vec::new();
            let tps: Vec<String> = Vec::new();
            assert(annotation_views(anns@) =~= Seq::<AnnotationView>::empty());
            assert(strs(tps@) =~= Seq::<Seq<char>>::empty());
            Some(Some(make_symbol(path, t, i, Ghost(len), kind, q, vis, Some(sig), doc, parent, anns, tps)))
        },
        _ => {
            let sig = match extract_signature(t, i, source, '{') {
                None => {
                    assert(rust_item(file_input(t@, source@, path@), i as int, ref_view(parent), kind) is None);
                    return None;
                },
                Some(s) => s,
            };
            let anns: Vec<Annotation> = Vec::new();
            let tps: Vec<String> = Vec::new();
            assert(annotation_views(anns@) =~= Seq::<AnnotationView>::empty());
            assert(strs(tps@) =~= Seq::<Seq<char>>::empty());
            Some(Some(make_symbol(path, t, i, Ghost(len), kind, q, vis, sig, doc, parent, anns, tps)))
        },
    }
}


fn to_method(s: Symbol, ty: &Option<String>) -> (r: Symbol)
    ensures
        r@ == as_method(s@, opt_str(*ty)),
{
    let mut s = s;
    s.kind = SymbolKind::Method;
    match ty {
        Some(tn) => {
            let q = chars_of(s.qualified_name.as_str());
            let sep = chars_of("::");
            proof { reveal_strlit("::"); }
            let last = split_last_vec(&q, &sep);
            let mut v = chars_of(tn.as_str());
            append_vec(&mut v, &sep);
            append_vec(&mut v, &last);
            s.qualified_name = string_of(v.as_slice());
        },
        None => {},
    }
    s
}

fn rust_impl_exec(
    t: &Vec<SyntaxNode>,
    i: usize,
    source: &[u8],
    path: &str,
    parent: Option<&SymbolId>,
    symbols: &mut Vec<Symbol>,
    references: &mut Vec<Reference>,
) -> (ok: bool)
    requires
        i < t.len(),
        placed(t@, source@.len()),
    ensures
        ok == rust_impl(file_input(t@, source@, path@), i as int, ref_view(parent)) is Some,
        ok ==> extends(final(symbols)@, final(references)@, old(symbols)@, old(references)@,
            rust_impl(file_input(t@, source@, path@), i as int, ref_view(parent)).unwrap()),
{
    let ghost f = file_input(t@, source@, path@);
    let ghost ctx = ref_view(parent);
    let ty = field_text_exec(t, i, source, "type");
    let tr = field_text_exec(t, i, source, "trait");
    let ghost refs0 = reference_views(references@);
    match (&tr, &ty, parent) {
        (Some(trn), Some(_), Some(p)) => {
            let span = node_span_exec(t, i, Ghost(source@.len()));
            let r = Reference { source: p.dup(), target: ReferenceTarget::Unresolved(trn.clone()), kind: ReferenceKind::Implements, span };
            proof { lemma_reference_views_push(references@, r); }
            references.push(r);
        },
        _ => {},
    }
    assert(reference_views(references@) == refs0 + rust_impl_refs(t@, source@, i as int, ctx));
    let ghost syms0 = symbol_views(symbols@);
    match find_field_child(t, i, "body") {
        None => {
            assert(symbol_views(symbols@) =~= syms0 + Seq::<SymbolView>::empty());
            true
        },
        Some(b) => {
            let end = find_subtree_end(t, b);
            let mut c: usize = b + 1;
            while c < end
                invariant
                    b < c,
                    b < t.len(),
                    end as int == subtree_end(t@, b as int),
                    end <= t.len(),
                    placed(t@, source@.len()),
                    f == file_input(t@, source@, path@),
                    ctx == ref_view(parent),
                    opt_str(ty) == field_text(t@, i as int, source@, "type"@),
                    field_child(t@, i as int, "body"@) == Some(b as int),
                    reference_views(references@) == refs0 + rust_impl_refs(t@, source@, i as int, ctx),
                    match rust_methods_from(f, b as int, c as int, ctx, opt_str(ty)) {
                        Some(rest) => rust_methods_from(f, b as int, b as int + 1, ctx, opt_str(ty)) == Some(symbol_views(symbols@).subrange(syms0.len() as int, symbol_views(symbols@).len() as int) + rest),
                        None => rust_methods_from(f, b as int, b as int + 1, ctx, opt_str(ty)) is None,
                    },
                    symbol_views(symbols@).subrange(0, syms0.len() as int) == syms0,
                    syms0.len() <= symbol_views(symbols@).len(),
                decreases t.len() - c,
            {
                let ghost before = symbol_views(symbols@);
                let e = next_child(t, c);
                if kind_is_exec(t, c, "function_item") {
                    match rust_extract_item(t, c, source, path, parent, SymbolKind::Function) {
                        None => {
                            assert(rust_methods_from(f, b as int, c as int, ctx, opt_str(ty)) is None);
                            return false;
                        },
                        Some(None) => {},
                        Some(Some(sym)) => {
                            let m = to_method(sym, &ty);
                            proof { lemma_symbol_views_push(symbols@, m); }
                            symbols.push(m);
                            assert(symbol_views(symbols@).subrange(syms0.len() as int, symbol_views(symbols@).len() as int)
                                =~= before.subrange(syms0.len() as int, before.len() as int).push(m@));
                            assert(symbol_views(symbols@).subrange(0, syms0.len() as int) =~= before.subrange(0, syms0.len() as int));
                        },
                    }
                }
                c = e;
            }
            assert(symbol_views(symbols@) =~= syms0 + symbol_views(symbols@).subrange(syms0.len() as int, symbol_views(symbols@).len() as int));
            true
        },
    }
}

fn rust_visit_node(
    t: &Vec<SyntaxNode>,
    i: usize,
    source: &[u8],
    path: &str,
    parent: Option<&SymbolId>,
    symbols: &mut Vec<Symbol>,
    references: &mut Vec<Reference>,
) -> (ok: bool)
    requires
        i < t.len(),
        placed(t@, source@.len()),
    ensures
        ok == rust_visit(file_input(t@, source@, path@), i as int, ref_view(parent)) is Some,
        ok ==> extends(final(symbols)@, final(references)@, old(symbols)@, old(references)@,
            rust_visit(file_input(t@, source@, path@), i as int, ref_view(parent)).unwrap()),
    decreases 2 * (t.len() - i) + 1,
{
    let ghost f = file_input(t@, source@, path@);
    let ghost ctx = ref_view(parent);
    match rust_item_kind_exec(t, i) {
        Some(kind) => {
            match rust_extract_item(t, i, source, path, parent, kind) {
                None => false,
                Some(Some(sym)) => {
                    let ghost sv = sym@;
                    let ghost s0 = old(symbols)@;
                    let ghost r0 = old(references)@;
                    proof { lemma_symbol_views_push(symbols@, sym); }
                    if matches!(kind, SymbolKind::Function | SymbolKind::Struct | SymbolKind::Enum | SymbolKind::Trait | SymbolKind::Module) {
                        let id = sym.id.dup();
                        symbols.push(sym);
                        let ghost s1 = symbols@;
                        let ok = rust_visit_children(t, i, source, path, Some(&id), symbols, references);
                        proof {
                            if ok {
                                let rest = rust_children(f, i as int, i as int + 1, Some(sv.id)).unwrap();
                                assert(symbol_views(symbols@) =~= symbol_views(s0) + (seq![sv] + rest.symbols));
                                assert(reference_views(references@) =~= reference_views(r0) + (Seq::<ReferenceView>::empty() + rest.references));
                            }
                        }
                        ok
                    } else {
                        symbols.push(sym);
                        let ok = rust_visit_children(t, i, source, path, parent, symbols, references);
                        proof {
                            if ok {
                                let rest = rust_children(f, i as int, i as int + 1, ctx).unwrap();
                                assert(symbol_views(symbols@) =~= symbol_views(s0) + (seq![sv] + rest.symbols));
                                assert(reference_views(references@) =~= reference_views(r0) + (Seq::<ReferenceView>::empty() + rest.references));
                            }
                        }
                        ok
                    }
                },
                Some(None) => rust_visit_children(t, i, source, path, parent, symbols, references),
            }
        },
        None => {
            if kind_is_exec(t, i, "impl_item") {
                rust_impl_exec(t, i, source, path, parent, symbols, references)
            } else if kind_is_exec(t, i, "use_declaration") {
                let ghost s0 = old(symbols)@;
                let ghost r0 = old(references)@;
                match (rust_use_path(t, i, source), parent) {
                    (Some(name), Some(p)) => {
                        let span = node_span_exec(t, i, Ghost(source@.len()));
                        let r = Reference { source: p.dup(), target: ReferenceTarget::Unresolved(name), kind: ReferenceKind::Import, span };
                        proof { lemma_reference_views_push(references@, r); }
                        references.push(r);
                    },
                    _ => {},
                }
                let ghost here = rust_use_refs(t@, source@, i as int, ctx);
                assert(reference_views(references@) == reference_views(r0) + here);
                let ok = rust_visit_children(t, i, source, path, parent, symbols, references);
                proof {
                    if ok {
                        let rest = rust_children(f, i as int, i as int + 1, ctx).unwrap();
                        assert(symbol_views(symbols@) =~= symbol_views(s0) + (Seq::<SymbolView>::empty() + rest.symbols));
                        assert(reference_views(references@) =~= reference_views(r0) + (here + rest.references));
                    }
                }
                ok
            } else {
                rust_visit_children(t, i, source, path, parent, symbols, references)
            }
        },
    }
}

fn rust_visit_children(
    t: &Vec<SyntaxNode>,
    p: usize,
    source: &[u8],
    path: &str,
    parent: Option<&SymbolId>,
    symbols: &mut Vec<Symbol>,
    references: &mut Vec<Reference>,
) -> (ok: bool)
    requires
        p < t.len(),
        placed(t@, source@.len()),
    ensures
        ok == rust_children(file_input(t@, source@, path@), p as int, p as int + 1, ref_view(parent)) is Some,
        ok ==> extends(final(symbols)@, final(references)@, old(symbols)@, old(references)@,
            rust_children(file_input(t@, source@, path@), p as int, p as int + 1, ref_view(parent)).unwrap()),
    decreases 2 * (t.len() - p),
{
    let ghost f = file_input(t@, source@, path@);
    let ghost ctx = ref_view(parent);
    let ghost s0 = symbols@;
    let ghost r0 = references@;
    let end = find_subtree_end(t, p);
    let mut c: usize = p + 1;
    let ghost mut done = nothing();
    while c < end
        invariant
            p < c,
            p < t.len(),
            end as int == subtree_end(t@, p as int),
            end <= t.len(),
            placed(t@, source@.len()),
            f == file_input(t@, source@, path@),
            ctx == ref_view(parent),
            then(Some(done), rust_children(f, p as int, c as int, ctx)) == rust_children(f, p as int, p as int + 1, ctx),
            extends(symbols@, references@, s0, r0, done),
        decreases t.len() - c,
    {
        let e = next_child(t, c);
        let ghost sb = symbols@;
        let ghost rb = references@;
        let ok = rust_visit_node(t, c, source, path, parent, symbols, references);
        if !ok {
            return false;
        }
        proof {
            let v = rust_visit(f, c as int, ctx).unwrap();
            let rest = rust_children(f, p as int, e as int, ctx);
            assert(rust_children(f, p as int, c as int, ctx) == then(Some(v), rest));
            let od = done;
            done = Collected { symbols: od.symbols + v.symbols, references: od.references + v.references };
            assert(symbol_views(symbols@) =~= symbol_views(s0) + done.symbols);
            assert(reference_views(references@) =~= reference_views(r0) + done.references);
            match rest {
                Some(x) => {
                    assert(od.symbols + (v.symbols + x.symbols) =~= done.symbols + x.symbols);
                    assert(od.references + (v.references + x.references) =~= done.references + x.references);
                },
                None => {},
            }
        }
        c = e;
    }
    proof {
        assert(rust_children(f, p as int, c as int, ctx) == Some(nothing()));
        assert(done.symbols + Seq::<SymbolView>::empty() =~= done.symbols);
        assert(done.references + Seq::<ReferenceView>::empty() =~= done.references);
    }
    true
}


// ---------------------------------------------------------------------------
// Laws
// ---------------------------------------------------------------------------

/// The symbol of a named Rust declaration is the first thing a visit of its
/// node collects, and its kind is the one the node's grammar kind names:
/// `function_item` a function, `struct_item` a struct, `enum_item` an enum,
/// `trait_item` a trait, `mod_item` a module, `const_item` and `static_item`
/// a constant, `type_item` a type alias.
pub proof fn law_rust_declaration_kind(f: FileInput, i: int, ctx: Option<SymbolIdView>)
    requires
        0 <= i < f.nodes.len(),
        field_text(f.nodes, i, f.source, "name"@) is Some,
        rust_visit(f, i, ctx) is Some,
    ensures
        ({
            let c = rust_visit(f, i, ctx)->0;
            let k = f.nodes[i].kind@;
            &&& k == "function_item"@ ==> c.symbols.len() > 0 && c.symbols[0].kind == SymbolKind::Function
            &&& k == "struct_item"@ ==> c.symbols.len() > 0 && c.symbols[0].kind == SymbolKind::Struct
            &&& k == "enum_item"@ ==> c.symbols.len() > 0 && c.symbols[0].kind == SymbolKind::Enum
            &&& k == "trait_item"@ ==> c.symbols.len() > 0 && c.symbols[0].kind == SymbolKind::Trait
            &&& k == "mod_item"@ ==> c.symbols.len() > 0 && c.symbols[0].kind == SymbolKind::Module
            &&& (k == "const_item"@ || k == "static_item"@) ==> c.symbols.len() > 0 && c.symbols[0].kind
                == SymbolKind::Constant
            &&& k == "type_item"@ ==> c.symbols.len() > 0 && c.symbols[0].kind == SymbolKind::TypeAlias
        }),
{
    reveal_strlit("function_item");
    reveal_strlit("struct_item");
    reveal_strlit("enum_item");
    reveal_strlit("trait_item");
    reveal_strlit("mod_item");
    reveal_strlit("const_item");
    reveal_strlit("static_item");
    reveal_strlit("type_item");
    let t = f.nodes;
    let k = t[i].kind@;
    assert("function_item"@.len() == 13);
    assert("struct_item"@.len() == 11);
    assert("enum_item"@.len() == 9);
    assert("trait_item"@.len() == 10);
    assert("mod_item"@.len() == 8);
    assert("const_item"@.len() == 10);
    assert("static_item"@.len() == 11);
    assert("type_item"@.len() == 9);
    assert("enum_item"@ != "type_item"@) by {
        assert("enum_item"@[0] != "type_item"@[0]);
    }
    assert("struct_item"@ != "static_item"@) by {
        assert("struct_item"@[2] != "static_item"@[2]);
    }
    assert("trait_item"@ != "const_item"@) by {
        assert("trait_item"@[0] != "const_item"@[0]);
    }
    if k == "function_item"@ {
        assert(rust_item_kind(t, i) == Some(SymbolKind::Function));
    }
    if k == "struct_item"@ {
        assert(!kind_is(t, i, "function_item"@));
        assert(rust_item_kind(t, i) == Some(SymbolKind::Struct));
    }
    if k == "enum_item"@ {
        assert(!kind_is(t, i, "function_item"@));
        assert(!kind_is(t, i, "struct_item"@));
        assert(rust_item_kind(t, i) == Some(SymbolKind::Enum));
    }
    if k == "trait_item"@ {
        assert(!kind_is(t, i, "function_item"@));
        assert(!kind_is(t, i, "struct_item"@));
        assert(!kind_is(t, i, "enum_item"@));
        assert(rust_item_kind(t, i) == Some(SymbolKind::Trait));
    }
    if k == "mod_item"@ {
        assert(!kind_is(t, i, "function_item"@));
        assert(!kind_is(t, i, "struct_item"@));
        assert(!kind_is(t, i, "enum_item"@));
        assert(!kind_is(t, i, "trait_item"@));
        assert(rust_item_kind(t, i) == Some(SymbolKind::Module));
    }
    if k == "const_item"@ {
        assert(!kind_is(t, i, "function_item"@));
        assert(!kind_is(t, i, "struct_item"@));
        assert(!kind_is(t, i, "enum_item"@));
        assert(!kind_is(t, i, "trait_item"@));
        assert(!kind_is(t, i, "mod_item"@));
        assert(rust_item_kind(t, i) == Some(SymbolKind::Constant));
    }
    if k == "static_item"@ {
        assert(!kind_is(t, i, "function_item"@));
        assert(!kind_is(t, i, "struct_item"@));
        assert(!kind_is(t, i, "enum_item"@));
        assert(!kind_is(t, i, "trait_item"@));
        assert(!kind_is(t, i, "mod_item"@));
        assert(!kind_is(t, i, "const_item"@));
        assert(rust_item_kind(t, i) == Some(SymbolKind::Constant));
    }
    if k == "type_item"@ {
        assert(!kind_is(t, i, "function_item"@));
        assert(!kind_is(t, i, "struct_item"@));
        assert(!kind_is(t, i, "enum_item"@));
        assert(!kind_is(t, i, "trait_item"@));
        assert(!kind_is(t, i, "mod_item"@));
        assert(!kind_is(t, i, "const_item"@));
        assert(!kind_is(t, i, "static_item"@));
        assert(rust_item_kind(t, i) == Some(SymbolKind::TypeAlias));
    }
    if rust_item_kind(t, i) is Some {
        let kind = rust_item_kind(t, i)->0;
        assert(rust_item(f, i, ctx, kind) is Some);
        assert(rust_item(f, i, ctx, kind)->0 is Some);
        let sym = rust_item(f, i, ctx, kind)->0->0;
        assert(sym.kind == kind);
        let c = rust_visit(f, i, ctx)->0;
        assert(c.symbols[0] == sym);
    }
}

} // verus!
