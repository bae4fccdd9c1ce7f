//! Evidence packs: what the documentation prompt for one symbol is built
//! from — its summary, source snippet, neighbourhood in the code graph and
//! the file's imports — and the prompt text itself.

use vstd::prelude::*;

use crate::graph::{
    in_neighbors, indices_below, last_edge_kind, out_neighbors, CodeGraph, CodeGraphNode, EdgeKind,
    GraphDirection, GraphView, NodeTag, NodeView, firsts,
};
use crate::ir::{opt_str, spec_stable_key, Span, Symbol, SymbolKind, Visibility};
use crate::text::{append_str, append_vec, chars_of, eq_vec, join, join_vec, lines, lines_vec, string_of, views};

verus! {

#[derive(Debug, Clone)]
pub struct EvidenceRef {
    pub file: String,
    pub start_line: usize,
    pub end_line: usize,
}

#[derive(Debug, Clone)]
pub struct LlmDocResult {
    pub summary: String,
    pub detailed: String,
    pub usage_example: Option<String>,
    pub sources: Vec<EvidenceRef>,
}

#[derive(Debug, Clone)]
pub struct EvidencePack {
    pub symbol: SymbolSummary,
    pub doc: Option<String>,
    pub source_snippet: String,
    pub graph_context: GraphContext,
    pub file_context: String,
}

#[derive(Debug, Clone)]
pub struct SymbolSummary {
    pub kind: String,
    pub qualified_name: String,
    pub signature: Option<String>,
    pub visibility: String,
}

#[derive(Debug, Clone)]
pub struct GraphContext {
    pub implements: Vec<String>,
    pub used_by: Vec<String>,
    pub contains: Vec<String>,
    pub calls: Vec<String>,
    pub handled_endpoints: Vec<String>,
}

/// The mathematical model of a graph context.
pub struct ContextView {
    pub implements: Seq<Seq<char>>,
    pub used_by: Seq<Seq<char>>,
    pub contains: Seq<Seq<char>>,
    pub calls: Seq<Seq<char>>,
    pub handled_endpoints: Seq<Seq<char>>,
}

impl View for GraphContext {
    type V = ContextView;

    open spec fn view(&self) -> ContextView {
        ContextView {
            implements: crate::ir::strs(self.implements@),
            used_by: crate::ir::strs(self.used_by@),
            contains: crate::ir::strs(self.contains@),
            calls: crate::ir::strs(self.calls@),
            handled_endpoints: crate::ir::strs(self.handled_endpoints@),
        }
    }
}

// ---------------------------------------------------------------------------
// Snippets
// ---------------------------------------------------------------------------

/// The first line of the snippet (zero-based): the span's start line less one.
pub open spec fn snippet_start(span: Span) -> int {
    if span.start_line == 0 { 0 } else { span.start_line - 1 }
}

/// One past the snippet's last line: the span's end line, within the text
/// and at most `max` lines after the start.
pub open spec fn snippet_end(source: Seq<char>, span: Span, max: int) -> int {
    let n = lines(source).len() as int;
    let e = if span.end_line < n { span.end_line as int } else { n };
    if e < snippet_start(span) + max { e } else { snippet_start(span) + max }
}

/// Whether the snippet can be cut: its start does not pass its end, and the
/// start plus the line limit fits in `usize`.
pub open spec fn snippet_ok(source: Seq<char>, span: Span) -> bool {
    &&& snippet_start(span) + 200 <= usize::MAX
    &&& snippet_start(span) <= snippet_end(source, span, 200)
}

/// The lines of the span (at most 200), joined by `\n`.
pub open spec fn snippet(source: Seq<char>, span: Span) -> Seq<char> {
    join(lines(source).subrange(snippet_start(span), snippet_end(source, span, 200)), "\n"@)
}

fn extract_snippet(source: &str, span: &Span) -> (r: String)
    requires
        snippet_ok(source@, *span),
    ensures
        r@ == snippet(source@, *span),
{
    let chars = chars_of(source);
    let ls = lines_vec(&chars);
    let start = if span.start_line == 0 { 0 } else { span.start_line - 1 };
    let e = if span.end_line < ls.len() { span.end_line } else { ls.len() };
    let end = if e < start + 200 { e } else { start + 200 };
    let mut part: Vec<Vec<char>> = Vec::new();
    let mut k: usize = start;
    while k < end
        invariant
            start <= k <= end,
            end <= ls.len(),
            views(part@) == views(ls@).subrange(start as int, k as int),
        decreases end - k,
    {
        let x = crate::text::copy_vec(&ls[k]);
        proof { crate::text::lemma_views_push(part@, x); }
        part.push(x);
        assert(views(part@) =~= views(ls@).subrange(start as int, k + 1));
        k = k + 1;
    }
    let nl = chars_of("\n");
    let joined = join_vec(&part, &nl);
    string_of(joined.as_slice())
}

// ---------------------------------------------------------------------------
// Graph context
// ---------------------------------------------------------------------------

pub open spec fn empty_context() -> ContextView {
    ContextView {
        implements: Seq::empty(),
        used_by: Seq::empty(),
        contains: Seq::empty(),
        calls: Seq::empty(),
        handled_endpoints: Seq::empty(),
    }
}

/// The context with the outgoing neighbors `ns` of `idx` read: symbols it
/// implements, contains and calls, by the kind of the latest edge to each.
pub open spec fn read_outgoing(g: GraphView, idx: usize, ns: Seq<usize>, c: ContextView) -> ContextView
    decreases ns.len(),
{
    if ns.len() == 0 {
        c
    } else {
        let c0 = read_outgoing(g, idx, ns.drop_last(), c);
        let nb = ns.last();
        match (last_edge_kind(g.edges, idx, nb), g.nodes[nb as int]) {
            (Some(EdgeKind::Implements), NodeView::Symbol { qualified_name, .. }) => ContextView { implements: c0.implements.push(qualified_name), ..c0 },
            (Some(EdgeKind::Contains), NodeView::Symbol { qualified_name, .. }) => ContextView { contains: c0.contains.push(qualified_name), ..c0 },
            (Some(EdgeKind::Calls), NodeView::Symbol { qualified_name, .. }) => ContextView { calls: c0.calls.push(qualified_name), ..c0 },
            _ => c0,
        }
    }
}

/// The context with the incoming neighbors read: the symbols that use it and
/// the endpoints it handles.
pub open spec fn read_incoming(g: GraphView, ns: Seq<usize>, c: ContextView) -> ContextView
    decreases ns.len(),
{
    if ns.len() == 0 {
        c
    } else {
        let c0 = read_incoming(g, ns.drop_last(), c);
        match g.nodes[ns.last() as int] {
            NodeView::Symbol { qualified_name, .. } => ContextView { used_by: c0.used_by.push(qualified_name), ..c0 },
            NodeView::Endpoint { method, path } => ContextView { handled_endpoints: c0.handled_endpoints.push(method + " "@ + path), ..c0 },
            _ => c0,
        }
    }
}

/// The first symbol node, among `idx`, whose key is `key`.
pub open spec fn first_with_key(g: GraphView, idx: Seq<usize>, key: Seq<char>, k: int) -> Option<usize>
    decreases idx.len() - k,
{
    if k < 0 || k >= idx.len() {
        None
    } else if g.nodes[idx[k] as int] matches NodeView::Symbol { symbol_id, .. } && symbol_id == key {
        Some(idx[k])
    } else {
        first_with_key(g, idx, key, k + 1)
    }
}

/// The neighbourhood of the first symbol node with the key.
pub open spec fn graph_context(g: GraphView, key: Seq<char>) -> ContextView {
    match first_with_key(g, indices_below(g.nodes, NodeTag::Symbol, g.nodes.len() as int), key, 0) {
        None => empty_context(),
        Some(idx) => read_incoming(g, in_neighbors(g.edges, idx), read_outgoing(g, idx, out_neighbors(g.edges, idx), empty_context())),
    }
}

fn push_str(v: &mut Vec<String>, s: String)
    ensures
        crate::ir::strs(final(v)@) == crate::ir::strs(old(v)@).push(s@),
{
    proof { crate::ir::lemma_strs_push(v@, s); }
    v.push(s);
}

fn build_graph_context(symbol: &Symbol, graph: &CodeGraph) -> (r: GraphContext)
    requires
        graph@.wf(),
    ensures
        r@ == graph_context(graph@, spec_stable_key(symbol.id.file_path@, symbol.id.start_byte, symbol.id.end_byte, symbol.id.kind)),
{
    let mut ctx = GraphContext {
        implements: Vec::new(),
        used_by: Vec::new(),
        contains: Vec::new(),
        calls: Vec::new(),
        handled_endpoints: Vec::new(),
    };
    assert(ctx@ =~= empty_context()) by {
        assert(crate::ir::strs(ctx.implements@) =~= Seq::<Seq<char>>::empty());
        assert(crate::ir::strs(ctx.used_by@) =~= Seq::<Seq<char>>::empty());
        assert(crate::ir::strs(ctx.contains@) =~= Seq::<Seq<char>>::empty());
        assert(crate::ir::strs(ctx.calls@) =~= Seq::<Seq<char>>::empty());
        assert(crate::ir::strs(ctx.handled_endpoints@) =~= Seq::<Seq<char>>::empty());
    }
    let key = chars_of(symbol.id.stable_key().as_str());
    let ghost g = graph@;
    let nodes = graph.symbol_nodes();
    let ghost idxs = firsts(nodes@);
    let mut k: usize = 0;
    while k < nodes.len()
        invariant
            k <= nodes.len(),
            g == graph@,
            g.wf(),
            idxs == firsts(nodes@),
            idxs == indices_below(g.nodes, NodeTag::Symbol, g.nodes.len() as int),
            forall|j: int| 0 <= j < nodes@.len() ==> g.nodes[(#[trigger] nodes@[j]).0 as int] == CodeGraphNode::SymbolNode(*nodes@[j].1)@,
            first_with_key(g, idxs, key@, k as int) == first_with_key(g, idxs, key@, 0),
            key@ == spec_stable_key(symbol.id.file_path@, symbol.id.start_byte, symbol.id.end_byte, symbol.id.kind),
            ctx@ == empty_context(),
        decreases nodes.len() - k,
    {
        let (idx, data) = nodes[k];
        assert(idxs[k as int] == idx);
        assert(g.nodes[idx as int] == CodeGraphNode::SymbolNode(*data)@);
        proof { crate::graph::lemma_indices_below_bound(g.nodes, NodeTag::Symbol, g.nodes.len() as int); }
        assert(idx < g.nodes.len());
        let sid = chars_of(data.symbol_id.as_str());
        if eq_vec(&sid, &key) {
            assert(first_with_key(g, idxs, key@, 0) == Some(idx));
            let outs = graph.neighbors(idx, GraphDirection::Outgoing);
            proof { crate::graph::lemma_neighbors_bound(g.edges, idx, g.nodes.len()); }
            let mut j: usize = 0;
            while j < outs.len()
                invariant
                    j <= outs.len(),
                    g == graph@,
                    g.wf(),
                    idx < g.nodes.len(),
                    outs@ == out_neighbors(g.edges, idx),
                    forall|i: int| 0 <= i < outs@.len() ==> #[trigger] outs@[i] < g.nodes.len(),
                    ctx@ == read_outgoing(g, idx, outs@.take(j as int), empty_context()),
                decreases outs.len() - j,
            {
                let nb = outs[j];
                assert(outs@.take(j + 1).drop_last() =~= outs@.take(j as int));
                let w = graph.node(nb);
                let kind = graph.edge_kind(idx, nb);
                match (kind, w) {
                    (Some(EdgeKind::Implements), CodeGraphNode::SymbolNode(n)) => push_str(&mut ctx.implements, n.qualified_name.clone()),
                    (Some(EdgeKind::Contains), CodeGraphNode::SymbolNode(n)) => push_str(&mut ctx.contains, n.qualified_name.clone()),
                    (Some(EdgeKind::Calls), CodeGraphNode::SymbolNode(n)) => push_str(&mut ctx.calls, n.qualified_name.clone()),
                    _ => {},
                }
                j = j + 1;
            }
            assert(outs@.take(j as int) =~= outs@);
            let ins = graph.neighbors(idx, GraphDirection::Incoming);
            let ghost mid = ctx@;
            let mut j: usize = 0;
            while j < ins.len()
                invariant
                    j <= ins.len(),
                    g == graph@,
                    g.wf(),
                    idx < g.nodes.len(),
                    ins@ == in_neighbors(g.edges, idx),
                    mid == read_outgoing(g, idx, out_neighbors(g.edges, idx), empty_context()),
                    forall|i: int| 0 <= i < ins@.len() ==> #[trigger] ins@[i] < g.nodes.len(),
                    ctx@ == read_incoming(g, ins@.take(j as int), mid),
                decreases ins.len() - j,
            {
                let nb = ins[j];
                assert(ins@.take(j + 1).drop_last() =~= ins@.take(j as int));
                let w = graph.node(nb);
                match w {
                    CodeGraphNode::SymbolNode(n) => push_str(&mut ctx.used_by, n.qualified_name.clone()),
                    CodeGraphNode::EndpointNode(e) => {
                        let mut t = chars_of(e.method.as_str());
                        t.push(' ');
                        let p = chars_of(e.path.as_str());
                        append_vec(&mut t, &p);
                        proof { reveal_strlit(" "); }
                        assert(t@ =~= e.method@ + " "@ + e.path@);
                        push_str(&mut ctx.handled_endpoints, string_of(t.as_slice()));
                    },
                    _ => {},
                }
                j = j + 1;
            }
            assert(ins@.take(j as int) =~= ins@);
            return ctx;
        }
        k = k + 1;
    }
    ctx
}

// ---------------------------------------------------------------------------
// Packs
// ---------------------------------------------------------------------------

/// The pack built for a symbol: its summary, doc, snippet, graph context and
/// the file's imports.
pub open spec fn pack_ok(p: EvidencePack, symbol: Symbol, source: Seq<char>, g: GraphView, imports: Seq<char>) -> bool {
    &&& p.symbol.kind@ == symbol.kind.spec_name()
    &&& p.symbol.qualified_name@ == symbol.qualified_name@
    &&& opt_str(p.symbol.signature) == opt_str(symbol.signature)
    &&& p.symbol.visibility@ == symbol.visibility.spec_debug_name()
    &&& opt_str(p.doc) == (match symbol.doc {
        Some(d) => Some(d.raw@),
        None => None,
    })
    &&& p.source_snippet@ == snippet(source, symbol.span)
    &&& p.graph_context@ == graph_context(g, spec_stable_key(symbol.id.file_path@, symbol.id.start_byte, symbol.id.end_byte, symbol.id.kind))
    &&& p.file_context@ == imports
}

/// The evidence for documenting a symbol.
pub fn build_evidence_pack(symbol: &Symbol, source: &str, graph: &CodeGraph, file_imports: &str) -> (r: EvidencePack)
    requires
        graph@.wf(),
        snippet_ok(source@, symbol.span),
    ensures
        pack_ok(r, *symbol, source@, graph@, file_imports@),
{
    let summary = SymbolSummary {
        kind: symbol.kind.to_string(),
        qualified_name: symbol.qualified_name.clone(),
        signature: match &symbol.signature {
            Some(s) => Some(s.clone()),
            None => None,
        },
        visibility: symbol.visibility.debug_name().to_owned(),
    };
    let snippet = extract_snippet(source, &symbol.span);
    let graph_context = build_graph_context(symbol, graph);
    EvidencePack {
        symbol: summary,
        doc: match &symbol.doc {
            Some(d) => Some(d.raw.clone()),
            None => None,
        },
        source_snippet: snippet,
        graph_context,
        file_context: file_imports.to_owned(),
    }
}

// ---------------------------------------------------------------------------
// Prompts
// ---------------------------------------------------------------------------

/// One bullet per item.
pub open spec fn bullets(items: Seq<Seq<char>>) -> Seq<char>
    decreases items.len(),
{
    if items.len() == 0 {
        Seq::empty()
    } else {
        bullets(items.drop_last()) + "- `"@ + items.last() + "`\n"@
    }
}

/// A titled list, when there is anything in it.
pub open spec fn section(title: Seq<char>, items: Seq<Seq<char>>) -> Seq<char> {
    if items.len() == 0 {
        Seq::empty()
    } else {
        title + bullets(items) + "\n"@
    }
}

pub open spec fn prompt_heading(p: EvidencePack) -> Seq<char> {
    "## Symbol: "@ + p.symbol.qualified_name@ + " ("@ + p.symbol.kind@ + ")\n"@
}

pub open spec fn prompt_signature(p: EvidencePack) -> Seq<char> {
    match p.symbol.signature {
        Some(s) => "**Signature**: `"@ + s@ + "`\n"@,
        None => Seq::empty(),
    }
}

pub open spec fn prompt_visibility(p: EvidencePack) -> Seq<char> {
    "**Visibility**: "@ + p.symbol.visibility@ + "\n\n"@
}

pub open spec fn prompt_doc(p: EvidencePack) -> Seq<char> {
    match p.doc {
        Some(d) => "### Existing Documentation\n"@ + d@ + "\n\n"@,
        None => Seq::empty(),
    }
}

pub open spec fn prompt_source(p: EvidencePack) -> Seq<char> {
    "### Source Code\n```\n"@ + p.source_snippet@ + "\n```\n\n"@
}

pub open spec fn prompt_sections(p: EvidencePack) -> Seq<char> {
    section("### Implements\n"@, p.graph_context@.implements)
        + section("### Contains\n"@, p.graph_context@.contains)
        + section("### Used By\n"@, p.graph_context@.used_by)
        + section("### Handles Endpoints\n"@, p.graph_context@.handled_endpoints)
}

pub open spec fn prompt_imports(p: EvidencePack) -> Seq<char> {
    if p.file_context@.len() == 0 {
        Seq::empty()
    } else {
        "### File Imports\n```\n"@ + p.file_context@ + "\n```\n"@
    }
}

/// The documentation prompt for a pack: the symbol's heading, signature,
/// visibility and existing documentation, its source, what it implements,
/// contains, is used by and handles, and the file's imports.
pub open spec fn prompt_text(p: EvidencePack) -> Seq<char> {
    prompt_heading(p) + prompt_signature(p) + prompt_visibility(p) + prompt_doc(p) + prompt_source(p)
        + prompt_sections(p) + prompt_imports(p)
}

fn append_section(out: &mut Vec<char>, title: &str, items: &Vec<String>)
    ensures
        final(out)@ == old(out)@ + section(title@, crate::ir::strs(items@)),
{
    if items.len() == 0 {
        assert(final(out)@ =~= old(out)@ + Seq::<char>::empty());
        return;
    }
    let ghost o = out@;
    append_str(out, title);
    let mut k: usize = 0;
    while k < items.len()
        invariant
            k <= items.len(),
            out@ == o + title@ + bullets(crate::ir::strs(items@).take(k as int)),
        decreases items.len() - k,
    {
        assert(crate::ir::strs(items@).take(k + 1).drop_last() =~= crate::ir::strs(items@).take(k as int));
        append_str(out, "- `");
        append_str(out, items[k].as_str());
        append_str(out, "`\n");
        k = k + 1;
    }
    assert(crate::ir::strs(items@).take(k as int) =~= crate::ir::strs(items@));
    append_str(out, "\n");
}

/// The documentation prompt for a pack.
#[verifier::spinoff_prover]
#[verifier::rlimit(40)]
pub fn format_evidence_prompt(pack: &EvidencePack) -> (r: String)
    ensures
        r@ == prompt_text(*pack),
{
    let ghost p = *pack;
    let mut out: Vec<char> = Vec::new();
    append_str(&mut out, "## Symbol: ");
    append_str(&mut out, pack.symbol.qualified_name.as_str());
    append_str(&mut out, " (");
    append_str(&mut out, pack.symbol.kind.as_str());
    append_str(&mut out, ")\n");
    assert(out@ =~= prompt_heading(p));
    let ghost a = out@;
    match &pack.symbol.signature {
        Some(s) => {
            append_str(&mut out, "**Signature**: `");
            append_str(&mut out, s.as_str());
            append_str(&mut out, "`\n");
        },
        None => {},
    }
    assert(out@ =~= a + prompt_signature(p));
    let ghost b = out@;
    append_str(&mut out, "**Visibility**: ");
    append_str(&mut out, pack.symbol.visibility.as_str());
    append_str(&mut out, "\n\n");
    assert(out@ =~= b + prompt_visibility(p));
    let ghost c = out@;
    match &pack.doc {
        Some(d) => {
            append_str(&mut out, "### Existing Documentation\n");
            append_str(&mut out, d.as_str());
            append_str(&mut out, "\n\n");
        },
        None => {},
    }
    assert(out@ =~= c + prompt_doc(p));
    let ghost d = out@;
    append_str(&mut out, "### Source Code\n```\n");
    append_str(&mut out, pack.source_snippet.as_str());
    append_str(&mut out, "\n```\n\n");
    assert(out@ =~= d + prompt_source(p));
    let ghost e = out@;
    append_section(&mut out, "### Implements\n", &pack.graph_context.implements);
    append_section(&mut out, "### Contains\n", &pack.graph_context.contains);
    append_section(&mut out, "### Used By\n", &pack.graph_context.used_by);
    append_section(&mut out, "### Handles Endpoints\n", &pack.graph_context.handled_endpoints);
    assert(out@ =~= e + prompt_sections(p));
    let ghost f = out@;
    let fc = chars_of(pack.file_context.as_str());
    if fc.len() > 0 {
        append_str(&mut out, "### File Imports\n```\n");
        append_vec(&mut out, &fc);
        append_str(&mut out, "\n```\n");
    }
    assert(out@ =~= f + prompt_imports(p));
    assert(out@ =~= prompt_text(p));
    string_of(out.as_slice())
}

} // verus!
