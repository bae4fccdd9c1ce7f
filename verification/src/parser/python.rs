//! The Python parser: functions, methods and classes with their docstrings
//! and decorators, and import statements.

use vstd::prelude::*;

use crate::error::{WikiGenError, WikiGenResult};
use crate::ir::{
    annotation_views, doc_view, lemma_reference_views_push, lemma_symbol_views_push, opt_str,
    reference_views, strs, symbol_views, Annotation, AnnotationView, Doc, DocFormat, DocView,
    Language, Reference, ReferenceKind, ReferenceTarget, ReferenceTargetView, ReferenceView, Symbol,
    SymbolId, SymbolIdView, SymbolKind, SymbolView, Visibility,
};
use crate::parser::extract::{
    build_qualified_name, extends, extract_signature, field_text, field_text_exec, file_input,
    make_symbol, next_child, node_signature, node_symbol, nothing, qualified_name, ref_view, then,
    Collected, FileInput,
};
use crate::parser::syntax::{
    field_child, find_field_child, find_first_child, find_parent, find_subtree_end, first_child,
    kind_is, kind_is_exec, lemma_subtree_end_bounds, node_span, node_span_exec, node_text,
    node_text_exec, parent, parse_syntax, placed, subtree_end, Grammar, SyntaxNode,
};
use crate::parser::{file_record, parse_result_ok, tree_error, walk_finishes, ParseOutput};
use crate::text::{
    chars_of, lines, lines_vec, starts_with, starts_with_vec, string_of, trim, trim_end_matches,
    trim_end_matches_vec, trim_start_matches, trim_start_matches_vec, trim_vec, views, append_vec,
};

verus! {

/// Parses Python source files.
pub struct PythonParser {
    _private: (),
}

// ---------------------------------------------------------------------------
// What one node gives
// ---------------------------------------------------------------------------

/// A docstring without its quotes, trimmed.
pub open spec fn docstring_raw(text: Seq<char>) -> Seq<char> {
    trim(trim_end_matches(trim_end_matches(trim_start_matches(trim_start_matches(text, "\"\"\""@), "'''"@), "\"\"\""@), "'''"@))
}

/// The docstring of a definition: a string expression first in its body.
pub open spec fn py_docstring(t: Seq<SyntaxNode>, src: Seq<u8>, i: int) -> Option<DocView> {
    match field_child(t, i, "body"@) {
        None => None,
        Some(body) => match first_child(t, body) {
            None => None,
            Some(first) => if kind_is(t, first, "expression_statement"@) {
                match first_child(t, first) {
                    None => None,
                    Some(expr) => if kind_is(t, expr, "string"@) {
                        match node_text(t, expr, src) {
                            None => None,
                            Some(text) => {
                                let raw = docstring_raw(text);
                                Some(DocView {
                                    raw,
                                    format: DocFormat::ReST,
                                    summary: if lines(raw).len() > 0 { Some(trim(lines(raw)[0])) } else { None },
                                })
                            },
                        }
                    } else {
                        None
                    },
                }
            } else {
                None
            },
        },
    }
}

/// The decorators among the children of a `decorated_definition` `p`, from `c` on.
pub open spec fn py_decorators_from(t: Seq<SyntaxNode>, src: Seq<u8>, p: int, c: int) -> Seq<AnnotationView>
    decreases t.len() - c,
{
    if !(0 <= c < t.len() && c < subtree_end(t, p)) {
        Seq::empty()
    } else {
        proof {
            lemma_subtree_end_bounds(t, c);
        }
        let here = if kind_is(t, c, "decorator"@) && node_text(t, c, src) is Some {
            seq![AnnotationView {
                name: trim_start_matches(node_text(t, c, src).unwrap(), "@"@),
                arguments: Seq::empty(),
                span: node_span(t[c]),
            }]
        } else {
            Seq::empty()
        };
        here + py_decorators_from(t, src, p, subtree_end(t, c))
    }
}

/// The decorators of a definition, read from the `decorated_definition` around it.
pub open spec fn py_decorators(t: Seq<SyntaxNode>, src: Seq<u8>, i: int) -> Seq<AnnotationView> {
    match parent(t, i) {
        Some(p) => if kind_is(t, p, "decorated_definition"@) {
            py_decorators_from(t, src, p, p + 1)
        } else {
            Seq::empty()
        },
        None => Seq::empty(),
    }
}

/// The symbol a function or class definition gives: `Some(None)` without a
/// readable name, `None` where its signature cannot be cut.
pub open spec fn py_item(f: FileInput, i: int, ctx: Option<SymbolIdView>, class: bool) -> Option<Option<SymbolView>> {
    let t = f.nodes;
    let src = f.source;
    match field_text(t, i, src, "name"@) {
        None => Some(None),
        Some(name) => {
            let q = qualified_name(f.path, name, "."@, "."@);
            let doc = py_docstring(t, src, i);
            let decs = py_decorators(t, src, i);
            if class {
                let vis = if starts_with(name, "_"@) { Visibility::Private } else { Visibility::Public };
                Some(Some(node_symbol(f.path, t[i], SymbolKind::Class, q, vis, Some("class "@ + name), doc, ctx, decs, Seq::empty())))
            } else {
                let kind = if ctx matches Some(p) && p.kind == SymbolKind::Class {
                    SymbolKind::Method
                } else {
                    SymbolKind::Function
                };
                let vis = if starts_with(name, "_"@) && !starts_with(name, "__"@) {
                    Visibility::Private
                } else {
                    Visibility::Public
                };
                match node_signature(t, i, src, ':') {
                    None => None,
                    Some(sig) => Some(Some(node_symbol(f.path, t[i], kind, q, vis, sig, doc, ctx, decs, Seq::empty()))),
                }
            }
        },
    }
}

/// The `Import` reference of an import statement (its whole text), made under a parent symbol.
pub open spec fn py_import_refs(t: Seq<SyntaxNode>, src: Seq<u8>, i: int, ctx: Option<SymbolIdView>) -> Seq<ReferenceView> {
    match (node_text(t, i, src), ctx) {
        (Some(text), Some(p)) => seq![ReferenceView {
            source: p,
            target: ReferenceTargetView::Unresolved(text),
            kind: ReferenceKind::Import,
            span: node_span(t[i]),
        }],
        _ => Seq::empty(),
    }
}

// ---------------------------------------------------------------------------
// The walk
// ---------------------------------------------------------------------------

/// What visiting node `i` under the parent `ctx` collects; `None` where a
/// signature cannot be cut.
pub open spec fn py_visit(f: FileInput, i: int, ctx: Option<SymbolIdView>) -> Option<Collected>
    decreases 2 * (f.nodes.len() - i) + 1,
{
    let t = f.nodes;
    if !(0 <= i < t.len()) {
        Some(nothing())
    } else if kind_is(t, i, "function_definition"@) || kind_is(t, i, "class_definition"@) {
        match py_item(f, i, ctx, kind_is(t, i, "class_definition"@)) {
            None => None,
            Some(Some(s)) => then(Some(Collected { symbols: seq![s], references: Seq::empty() }), py_children(f, i, i + 1, Some(s.id), false)),
            Some(None) => py_children(f, i, i + 1, ctx, false),
        }
    } else if kind_is(t, i, "import_statement"@) || kind_is(t, i, "import_from_statement"@) {
        then(Some(Collected { symbols: Seq::empty(), references: py_import_refs(t, f.source, i, ctx) }), py_children(f, i, i + 1, ctx, false))
    } else if kind_is(t, i, "decorated_definition"@) {
        py_children(f, i, i + 1, ctx, true)
    } else {
        py_children(f, i, i + 1, ctx, false)
    }
}

/// What visiting the children of `p`, from `c` on, collects; decorators are
/// skipped when `skip_decorators`.
pub open spec fn py_children(f: FileInput, p: int, c: int, ctx: Option<SymbolIdView>, skip_decorators: bool) -> Option<Collected>
    decreases 2 * (f.nodes.len() - c) + 2,
{
    let t = f.nodes;
    if !(0 <= c < t.len() && c < subtree_end(t, p)) {
        Some(nothing())
    } else {
        proof {
            lemma_subtree_end_bounds(t, c);
        }
        let here = if skip_decorators && kind_is(t, c, "decorator"@) {
            Some(nothing())
        } else {
            py_visit(f, c, ctx)
        };
        then(here, py_children(f, p, subtree_end(t, c), ctx, skip_decorators))
    }
}

/// What the Python walk collects from a tree of `source` at `path`: the visit of the root.
pub open spec fn py_walk(source: Seq<u8>, path: Seq<char>) -> spec_fn(Seq<SyntaxNode>) -> Option<Collected> {
    |t: Seq<SyntaxNode>| py_visit(file_input(t, source, path), 0, None)
}

// ---------------------------------------------------------------------------
// Executable extraction
// ---------------------------------------------------------------------------

fn py_docstring_exec(t: &Vec<SyntaxNode>, i: usize, source: &[u8]) -> (r: Option<Doc>)
    requires
        i < t.len(),
    ensures
        doc_view(r) == py_docstring(t@, source@, i as int),
{
    let body = match find_field_child(t, i, "body") {
        None => return None,
        Some(b) => b,
    };
    let first = match find_first_child(t, body) {
        None => return None,
        Some(x) => x,
    };
    if !kind_is_exec(t, first, "expression_statement") {
        return None;
    }
    let expr = match find_first_child(t, first) {
        None => return None,
        Some(x) => x,
    };
    if !kind_is_exec(t, expr, "string") {
        return None;
    }
    let text = match node_text_exec(t, expr, source) {
        None => return None,
        Some(x) => chars_of(x.as_str()),
    };
    let q3 = chars_of("\"\"\"");
    let s3 = chars_of("'''");
    let a = trim_start_matches_vec(&text, &q3);
    let b = trim_start_matches_vec(&a, &s3);
    let c = trim_end_matches_vec(&b, &q3);
    let d = trim_end_matches_vec(&c, &s3);
    let raw = trim_vec(&d);
    let ls = lines_vec(&raw);
    let summary = if ls.len() > 0 {
        let first_line = trim_vec(&ls[0]);
        assert(views(ls@)[0] == ls@[0]@);
        Some(string_of(first_line.as_slice()))
    } else {
        None
    };
    Some(Doc { raw: string_of(raw.as_slice()), format: DocFormat::ReST, summary })
}

fn py_decorators_exec(t: &Vec<SyntaxNode>, i: usize, source: &[u8], Ghost(len): Ghost<nat>) -> (r: Vec<Annotation>)
    requires
        i < t.len(),
        placed(t@, len),
    ensures
        annotation_views(r@) == py_decorators(t@, source@, i as int),
{
    let mut out: Vec<Annotation> = Vec::new();
    let p = match find_parent(t, i) {
        None => {
            assert(annotation_views(out@) =~= Seq::<AnnotationView>::empty());
            return out;
        },
        Some(p) => p,
    };
    if !kind_is_exec(t, p, "decorated_definition") {
        assert(annotation_views(out@) =~= Seq::<AnnotationView>::empty());
        return out;
    }
    let at = chars_of("@");
    let end = find_subtree_end(t, p);
    let mut c: usize = p + 1;
    while c < end
        invariant
            p < c,
            p < t.len(),
            end as int == subtree_end(t@, p as int),
            end <= t.len(),
            at@ == "@"@,
            placed(t@, len),
            annotation_views(out@) + py_decorators_from(t@, source@, p as int, c as int) == py_decorators_from(t@, source@, p as int, p as int + 1),
        decreases t.len() - c,
    {
        let ghost before = annotation_views(out@);
        if kind_is_exec(t, c, "decorator") {
            match node_text_exec(t, c, source) {
                Some(x) => {
                    let text = chars_of(x.as_str());
                    let name = trim_start_matches_vec(&text, &at);
                    let span = node_span_exec(t, c, Ghost(len));
                    let ann = Annotation { name: string_of(name.as_slice()), arguments: Vec::new(), span };
                    assert(strs(ann.arguments@) =~= Seq::<Seq<char>>::empty());
                    out.push(ann);
                    assert(annotation_views(out@) =~= before.push(ann@));
                },
                None => {},
            }
        }
        let e = next_child(t, c);
        assert(annotation_views(out@) + py_decorators_from(t@, source@, p as int, e as int)
            =~= before + py_decorators_from(t@, source@, p as int, c as int));
        c = e;
    }
    assert(annotation_views(out@) + Seq::<AnnotationView>::empty() =~= annotation_views(out@));
    out
}

fn labelled(prefix: &str, name: &str) -> (r: String)
    ensures
        r@ == prefix@ + " "@ + name@,
{
    let mut v = chars_of(prefix);
    v.push(' ');
    let n = chars_of(name);
    append_vec(&mut v, &n);
    proof { reveal_strlit(" "); }
    assert(v@ =~= prefix@ + " "@ + name@);
    string_of(v.as_slice())
}

fn py_extract_item(
    t: &Vec<SyntaxNode>,
    i: usize,
    source: &[u8],
    path: &str,
    parent: Option<&SymbolId>,
    class: bool,
) -> (r: Option<Option<Symbol>>)
    requires
        i < t.len(),
        placed(t@, source@.len()),
    ensures
        match r {
            None => py_item(file_input(t@, source@, path@), i as int, ref_view(parent), class) is None,
            Some(None) => py_item(file_input(t@, source@, path@), i as int, ref_view(parent), class) == Some(None::<SymbolView>),
            Some(Some(s)) => py_item(file_input(t@, source@, path@), i as int, ref_view(parent), class) == Some(Some(s@)),
        },
{
    let ghost len = source@.len();
    let name = match field_text_exec(t, i, source, "name") {
        None => return Some(None),
        Some(n) => n,
    };
    let q = build_qualified_name(path, name.as_str(), ".", ".");
    let doc = py_docstring_exec(t, i, source);
    let decs = py_decorators_exec(t, i, source, Ghost(len));
    let nv = chars_of(name.as_str());
    let us = chars_of("_");
    let dus = chars_of("__");
    let tps: Vec<String> = Vec::new();
    assert(strs(tps@) =~= Seq::<Seq<char>>::empty());
    if class {
        let vis = if starts_with_vec(&nv, &us) { Visibility::Private } else { Visibility::Public };
        let sig = labelled("class", name.as_str());
        proof {
            reveal_strlit("class ");
            reveal_strlit("class");
            reveal_strlit(" ");
        }
        assert(sig@ =~= "class "@ + name@);
        let r = make_symbol(path, t, i, Ghost(len), SymbolKind::Class, q, vis, Some(sig), doc, parent, decs, tps);
        Some(Some(r))
    } else {
        let kind = match parent {
            Some(p) => if matches!(p.kind, SymbolKind::Class) { SymbolKind::Method } else { SymbolKind::Function },
            None => SymbolKind::Function,
        };
        let vis = if starts_with_vec(&nv, &us) && !starts_with_vec(&nv, &dus) {
            Visibility::Private
        } else {
            Visibility::Public
        };
        let sig = match extract_signature(t, i, source, ':') {
            None => return None,
            Some(s) => s,
        };
        Some(Some(make_symbol(path, t, i, Ghost(len), kind, q, vis, sig, doc, parent, decs, tps)))
    }
}

// ---------------------------------------------------------------------------
// The executable walk
// ---------------------------------------------------------------------------

fn py_visit_node(
    t: &Vec<SyntaxNode>,
    i: usize,
    source: &[u8],
    path: &str,
    parent: Option<&SymbolId>,
    symbols: &mut Vec<Symbol>,
    references: &mut Vec<Reference>,
) -> (ok: bool)
    requires
        i < t.len(),
        placed(t@, source@.len()),
    ensures
        ok == py_visit(file_input(t@, source@, path@), i as int, ref_view(parent)) is Some,
        ok ==> extends(final(symbols)@, final(references)@, old(symbols)@, old(references)@,
            py_visit(file_input(t@, source@, path@), i as int, ref_view(parent)).unwrap()),
    decreases 2 * (t.len() - i) + 1,
{
    let ghost f = file_input(t@, source@, path@);
    let ghost ctx = ref_view(parent);
    let ghost s0 = old(symbols)@;
    let ghost r0 = old(references)@;
    let is_fn = kind_is_exec(t, i, "function_definition");
    let is_class = kind_is_exec(t, i, "class_definition");
    if is_fn || is_class {
        match py_extract_item(t, i, source, path, parent, is_class) {
            None => false,
            Some(Some(sym)) => {
                let ghost sv = sym@;
                proof { lemma_symbol_views_push(symbols@, sym); }
                let id = sym.id.dup();
                symbols.push(sym);
                let ok = py_visit_children(t, i, source, path, Some(&id), false, symbols, references);
                proof {
                    if ok {
                        let rest = py_children(f, i as int, i as int + 1, Some(sv.id), false).unwrap();
                        assert(symbol_views(symbols@) =~= symbol_views(s0) + (seq![sv] + rest.symbols));
                        assert(reference_views(references@) =~= reference_views(r0) + (Seq::<ReferenceView>::empty() + rest.references));
                    }
                }
                ok
            },
            Some(None) => py_visit_children(t, i, source, path, parent, false, symbols, references),
        }
    } else if kind_is_exec(t, i, "import_statement") || kind_is_exec(t, i, "import_from_statement") {
        match (node_text_exec(t, i, source), parent) {
            (Some(text), Some(p)) => {
                let span = node_span_exec(t, i, Ghost(source@.len()));
                let r = Reference { source: p.dup(), target: ReferenceTarget::Unresolved(text), kind: ReferenceKind::Import, span };
                proof { lemma_reference_views_push(references@, r); }
                references.push(r);
            },
            _ => {},
        }
        let ghost here = py_import_refs(t@, source@, i as int, ctx);
        assert(reference_views(references@) == reference_views(r0) + here);
        let ok = py_visit_children(t, i, source, path, parent, false, symbols, references);
        proof {
            if ok {
                let rest = py_children(f, i as int, i as int + 1, ctx, false).unwrap();
                assert(symbol_views(symbols@) =~= symbol_views(s0) + (Seq::<SymbolView>::empty() + rest.symbols));
                assert(reference_views(references@) =~= reference_views(r0) + (here + rest.references));
            }
        }
        ok
    } else if kind_is_exec(t, i, "decorated_definition") {
        py_visit_children(t, i, source, path, parent, true, symbols, references)
    } else {
        py_visit_children(t, i, source, path, parent, false, symbols, references)
    }
}

fn py_visit_children(
    t: &Vec<SyntaxNode>,
    p: usize,
    source: &[u8],
    path: &str,
    parent: Option<&SymbolId>,
    skip_decorators: bool,
    symbols: &mut Vec<Symbol>,
    references: &mut Vec<Reference>,
) -> (ok: bool)
    requires
        p < t.len(),
        placed(t@, source@.len()),
    ensures
        ok == py_children(file_input(t@, source@, path@), p as int, p as int + 1, ref_view(parent), skip_decorators) is Some,
        ok ==> extends(final(symbols)@, final(references)@, old(symbols)@, old(references)@,
            py_children(file_input(t@, source@, path@), p as int, p as int + 1, ref_view(parent), skip_decorators).unwrap()),
    decreases 2 * (t.len() - p),
{
    let ghost f = file_input(t@, source@, path@);
    let ghost ctx = ref_view(parent);
    let ghost s0 = symbols@;
    let ghost r0 = references@;
    let end = find_subtree_end(t, p);
    let mut c: usize = p + 1;
    let ghost mut done = nothing();
    while c < end
        invariant
            p < c,
            p < t.len(),
            end as int == subtree_end(t@, p as int),
            end <= t.len(),
            placed(t@, source@.len()),
            f == file_input(t@, source@, path@),
            ctx == ref_view(parent),
            then(Some(done), py_children(f, p as int, c as int, ctx, skip_decorators)) == py_children(f, p as int, p as int + 1, ctx, skip_decorators),
            extends(symbols@, references@, s0, r0, done),
        decreases t.len() - c,
    {
        let e = next_child(t, c);
        if skip_decorators && kind_is_exec(t, c, "decorator") {
            proof {
                let rest = py_children(f, p as int, e as int, ctx, skip_decorators);
                assert(py_children(f, p as int, c as int, ctx, skip_decorators) == then(Some(nothing()), rest));
                match rest {
                    Some(x) => {
                        assert(done.symbols + (Seq::<SymbolView>::empty() + x.symbols) =~= done.symbols + x.symbols);
                        assert(done.references + (Seq::<ReferenceView>::empty() + x.references) =~= done.references + x.references);
                    },
                    None => {},
                }
            }
        } else {
            let ok = py_visit_node(t, c, source, path, parent, symbols, references);
            if !ok {
                return false;
            }
            proof {
                let v = py_visit(f, c as int, ctx).unwrap();
                let rest = py_children(f, p as int, e as int, ctx, skip_decorators);
                assert(py_children(f, p as int, c as int, ctx, skip_decorators) == then(Some(v), rest));
                let od = done;
                done = Collected { symbols: od.symbols + v.symbols, references: od.references + v.references };
                assert(symbol_views(symbols@) =~= symbol_views(s0) + done.symbols);
                assert(reference_views(references@) =~= reference_views(r0) + done.references);
                match rest {
                    Some(x) => {
                        assert(od.symbols + (v.symbols + x.symbols) =~= done.symbols + x.symbols);
                        assert(od.references + (v.references + x.references) =~= done.references + x.references);
                    },
                    None => {},
                }
            }
        }
        c = e;
    }
    proof {
        assert(py_children(f, p as int, c as int, ctx, skip_decorators) == Some(nothing()));
        assert(done.symbols + Seq::<SymbolView>::empty() =~= done.symbols);
        assert(done.references + Seq::<ReferenceView>::empty() =~= done.references);
    }
    true
}

impl PythonParser {
    pub closed spec fn new_spec() -> Self {
        PythonParser { _private: () }
    }

    pub fn new() -> (r: Self)
        ensures
            r == Self::new_spec(),
    {
        PythonParser { _private: () }
    }

    pub fn language(&self) -> (r: Language)
        ensures
            r == Language::Python,
    {
        Language::Python
    }

    /// Parses a Python file: its functions, methods and classes, with their
    /// docstrings and decorators, and its imports.
    pub fn parse(&self, source: &[u8], file_path: &str) -> (r: WikiGenResult<ParseOutput>)
        requires
            walk_finishes(Grammar::Python, source@, py_walk(source@, file_path@)),
        ensures
            parse_result_ok(r, Grammar::Python, "Python"@, Language::Python, source@, file_path@, py_walk(source@, file_path@)),
    {
        match self.parse_checked(source, file_path) {
            Some(r) => r,
            None => {
                assert(false);
                Err(WikiGenError::Parse { file: file_path.to_owned(), message: String::new() })
            },
        }
    }

    /// [`PythonParser::parse`], or `None` where a signature would have to be
    /// cut inside a character.
    pub fn parse_checked(&self, source: &[u8], file_path: &str) -> (r: Option<WikiGenResult<ParseOutput>>)
        ensures
            match r {
                None => !walk_finishes(Grammar::Python, source@, py_walk(source@, file_path@)),
                Some(x) => walk_finishes(Grammar::Python, source@, py_walk(source@, file_path@))
                    && parse_result_ok(x, Grammar::Python, "Python"@, Language::Python, source@, file_path@, py_walk(source@, file_path@)),
            },
    {
        match parse_syntax(Grammar::Python, source) {
            Err(e) => Some(Err(tree_error(e, "Python", file_path))),
            Ok(t) => {
                let mut symbols: Vec<Symbol> = Vec::new();
                let mut references: Vec<Reference> = Vec::new();
                let ok = if t.len() > 0 {
                    py_visit_node(&t, 0, source, file_path, None, &mut symbols, &mut references)
                } else {
                    true
                };
                if !ok {
                    return None;
                }
                let file = file_record(&t, source, file_path, Language::Python);
                let ghost c = py_visit(file_input(t@, source@, file_path@), 0, None).unwrap();
                assert(symbol_views(symbols@) =~= c.symbols);
                assert(reference_views(references@) =~= c.references);
                Some(Ok(ParseOutput { file, symbols, references, diagnostics: Vec::new() }))
            },
        }
    }
}


// ---------------------------------------------------------------------------
// Laws
// ---------------------------------------------------------------------------

/// The first character of a name is `_` (`str::starts_with('_')`).
pub open spec fn leading_underscore(n: Seq<char>) -> bool {
    n.len() > 0 && n[0] == '_'
}

proof fn lemma_starts_with_underscores(n: Seq<char>)
    ensures
        starts_with(n, "_"@) == leading_underscore(n),
        starts_with(n, "__"@) == (n.len() > 1 && n[0] == '_' && n[1] == '_'),
{
    reveal_strlit("_");
    reveal_strlit("__");
    if n.len() > 0 && n[0] == '_' {
        assert(n.subrange(0, 1) =~= "_"@);
    }
    if n.len() > 1 && n[0] == '_' && n[1] == '_' {
        assert(n.subrange(0, 2) =~= "__"@);
    }
    if starts_with(n, "__"@) {
        assert(n.subrange(0, 2)[0] == n[0]);
        assert(n.subrange(0, 2)[1] == n[1]);
    }
    if starts_with(n, "_"@) {
        assert(n.subrange(0, 1)[0] == n[0]);
    }
}

/// The symbol of a named Python definition is the first thing a visit of its
/// node collects. A class is a class, private exactly when its name begins
/// with `_`. A function is a method inside a class and a function elsewhere,
/// private exactly when its name begins with one `_` but not with `__`.
pub proof fn law_py_definition(f: FileInput, i: int, ctx: Option<SymbolIdView>)
    requires
        0 <= i < f.nodes.len(),
        field_text(f.nodes, i, f.source, "name"@) is Some,
        py_visit(f, i, ctx) is Some,
    ensures
        ({
            let c = py_visit(f, i, ctx)->0;
            let k = f.nodes[i].kind@;
            let n = field_text(f.nodes, i, f.source, "name"@)->0;
            &&& k == "class_definition"@ ==> c.symbols.len() > 0 && c.symbols[0].kind == SymbolKind::Class
                && c.symbols[0].visibility == (if leading_underscore(n) {
                Visibility::Private
            } else {
                Visibility::Public
            })
            &&& k == "function_definition"@ ==> c.symbols.len() > 0 && c.symbols[0].kind == (if ctx matches Some(
                p,
            ) && p.kind == SymbolKind::Class {
                SymbolKind::Method
            } else {
                SymbolKind::Function
            }) && c.symbols[0].visibility == (if leading_underscore(n) && !(n.len() > 1 && n[1] == '_') {
                Visibility::Private
            } else {
                Visibility::Public
            })
        }),
{
    reveal_strlit("class_definition");
    reveal_strlit("function_definition");
    assert("class_definition"@.len() == 16);
    assert("function_definition"@.len() == 19);
    let t = f.nodes;
    let k = t[i].kind@;
    let n = field_text(t, i, f.source, "name"@)->0;
    lemma_starts_with_underscores(n);
    if k == "class_definition"@ || k == "function_definition"@ {
        let class = kind_is(t, i, "class_definition"@);
        assert(py_item(f, i, ctx, class) is Some);
        assert(py_item(f, i, ctx, class)->0 is Some);
        let sym = py_item(f, i, ctx, class)->0->0;
        let c = py_visit(f, i, ctx)->0;
        assert(c.symbols[0] == sym);
    }
}

} // verus!
